//! Rendering of caller-facing replies: decimal sequence numbers and the
//! response lines sent back after a join request.

use vstd::prelude::*;
use vstd::string::StringExecFns;

use crate::registry::JoinOutcome;

verus! {

/// The decimal digit character for `d`.
pub open spec fn digit_char(d: nat) -> char {
    if d == 0 {
        '0'
    } else if d == 1 {
        '1'
    } else if d == 2 {
        '2'
    } else if d == 3 {
        '3'
    } else if d == 4 {
        '4'
    } else if d == 5 {
        '5'
    } else if d == 6 {
        '6'
    } else if d == 7 {
        '7'
    } else if d == 8 {
        '8'
    } else {
        '9'
    }
}

/// The decimal rendering of `n`, most significant digit first, with no
/// leading zeros (a single `'0'` for zero).
pub open spec fn decimal_seq(n: nat) -> Seq<char>
    decreases n,
{
    if n < 10 {
        seq![digit_char(n)]
    } else {
        decimal_seq(n / 10).push(digit_char(n % 10))
    }
}

/// The one-character string for digit `d`.
fn digit_str(d: usize) -> (r: &'static str)
    requires
        d < 10,
    ensures
        r@ == seq![digit_char(d as nat)],
{
    if d == 0 {
        proof {
            reveal_strlit("0");
            assert("0"@ =~= seq!['0']);
        }
        "0"
    } else if d == 1 {
        proof {
            reveal_strlit("1");
            assert("1"@ =~= seq!['1']);
        }
        "1"
    } else if d == 2 {
        proof {
            reveal_strlit("2");
            assert("2"@ =~= seq!['2']);
        }
        "2"
    } else if d == 3 {
        proof {
            reveal_strlit("3");
            assert("3"@ =~= seq!['3']);
        }
        "3"
    } else if d == 4 {
        proof {
            reveal_strlit("4");
            assert("4"@ =~= seq!['4']);
        }
        "4"
    } else if d == 5 {
        proof {
            reveal_strlit("5");
            assert("5"@ =~= seq!['5']);
        }
        "5"
    } else if d == 6 {
        proof {
            reveal_strlit("6");
            assert("6"@ =~= seq!['6']);
        }
        "6"
    } else if d == 7 {
        proof {
            reveal_strlit("7");
            assert("7"@ =~= seq!['7']);
        }
        "7"
    } else if d == 8 {
        proof {
            reveal_strlit("8");
            assert("8"@ =~= seq!['8']);
        }
        "8"
    } else {
        proof {
            reveal_strlit("9");
            assert("9"@ =~= seq!['9']);
        }
        "9"
    }
}

/// Render `n` in decimal.
pub fn decimal_string(n: usize) -> (r: String)
    ensures
        r@ == decimal_seq(n as nat),
    decreases n,
{
    if n < 10 {
        digit_str(n).to_owned()
    } else {
        let mut s = decimal_string(n / 10);
        let d = digit_str(n % 10);
        s.append(d);
        proof {
            assert(decimal_seq(n as nat / 10).push(digit_char(n as nat % 10)) =~= decimal_seq(
                n as nat / 10,
            ) + seq![digit_char(n as nat % 10)]);
        }
        s
    }
}

/// Response line for a first-time join.
pub open spec fn joined_text(raffle: Seq<char>, number: nat) -> Seq<char> {
    "You joined raffle "@ + raffle + " and are number "@ + decimal_seq(number) + "!"@
}

/// Response line for a repeat join.
pub open spec fn rejoined_text(raffle: Seq<char>, number: nat) -> Seq<char> {
    "Welcome back to raffle "@ + raffle + ", number "@ + decimal_seq(number) + "!"@
}

/// Response line for a join that named an unknown raffle.
pub open spec fn not_found_text(raffle: Seq<char>) -> Seq<char> {
    "Raffle "@ + raffle + " was not found."@
}

/// The response line for each join outcome.
pub open spec fn response_text(raffle: Seq<char>, outcome: JoinOutcome) -> Seq<char> {
    match outcome {
        JoinOutcome::Joined(n) => joined_text(raffle, n as nat),
        JoinOutcome::Rejoined(n) => rejoined_text(raffle, n as nat),
        JoinOutcome::NotFound => not_found_text(raffle),
    }
}

/// Render the response line for one join outcome.
pub fn join_response(raffle_id: &str, outcome: JoinOutcome) -> (r: String)
    ensures
        r@ == response_text(raffle_id@, outcome),
{
    match outcome {
        JoinOutcome::Joined(n) => {
            let mut s = "You joined raffle ".to_owned();
            s.append(raffle_id);
            s.append(" and are number ");
            let num = decimal_string(n);
            s.append(num.as_str());
            s.append("!");
            s
        }
        JoinOutcome::Rejoined(n) => {
            let mut s = "Welcome back to raffle ".to_owned();
            s.append(raffle_id);
            s.append(", number ");
            let num = decimal_string(n);
            s.append(num.as_str());
            s.append("!");
            s
        }
        JoinOutcome::NotFound => {
            let mut s = "Raffle ".to_owned();
            s.append(raffle_id);
            s.append(" was not found.");
            s
        }
    }
}

} // verus!

use flottery::identity::remote_identity;
use flottery::qr::{join_url, raffle_qr};
use flottery::registry::JoinOutcome;
use flottery::text::{decimal_string, join_response};

#[test]
fn decimal_rendering_exact_values() {
    assert_eq!(decimal_string(0), "0");
    assert_eq!(decimal_string(1), "1");
    assert_eq!(decimal_string(9), "9");
    assert_eq!(decimal_string(10), "10");
    assert_eq!(decimal_string(42), "42");
    assert_eq!(decimal_string(100), "100");
    assert_eq!(decimal_string(12345), "12345");
    assert_eq!(decimal_string(usize::MAX), format!("{}", usize::MAX));
}

#[test]
fn join_responses_exact_text() {
    assert_eq!(
        join_response("abc", JoinOutcome::Joined(1)),
        "You joined raffle abc and are number 1!"
    );
    assert_eq!(
        join_response("abc", JoinOutcome::Rejoined(17)),
        "Welcome back to raffle abc, number 17!"
    );
    assert_eq!(
        join_response("abc", JoinOutcome::NotFound),
        "Raffle abc was not found."
    );
}

#[test]
fn join_url_exact_text() {
    assert_eq!(
        join_url("happy-robot-chicken"),
        "https://flottery.shuttleapp.rs/join/happy-robot-chicken"
    );
}

#[test]
fn raffle_qr_matches_direct_rendering() {
    let svg = raffle_qr("abc").unwrap();
    assert!(!svg.is_empty());
    assert!(svg.contains("<svg"));
    assert_ne!(svg, join_url("abc"));
    // The library's QR code is exactly the one the encoder produces for
    // the raffle's join URL.
    let direct = qrcode::QrCode::new("https://flottery.shuttleapp.rs/join/abc")
        .unwrap()
        .render::<qrcode::render::svg::Color>()
        .build();
    assert_eq!(svg, direct);
}

#[test]
fn identity_prefers_forwarded_then_x_forwarded_for_then_host() {
    let f = || Some("fwd".to_owned());
    let x = || Some("xff".to_owned());
    let h = || Some("host".to_owned());
    assert_eq!(remote_identity(f(), x(), h()), Some("fwd".to_owned()));
    assert_eq!(remote_identity(f(), None, h()), Some("fwd".to_owned()));
    assert_eq!(remote_identity(None, x(), h()), Some("xff".to_owned()));
    assert_eq!(remote_identity(None, None, h()), Some("host".to_owned()));
    assert_eq!(remote_identity(None, None, None), None);
}

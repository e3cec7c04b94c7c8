use bus_booking_backend::error::ErrorKind;
use bus_booking_backend::validation::{validate_email, validate_name};

#[test]
fn emails_accepted() {
    for e in ["jane@example.com", "a.b_c%d+e-f@sub.domain-x.io", "x@x.co", "A1@b.c.DE"] {
        assert!(validate_email(e).is_ok(), "{}", e);
    }
}

#[test]
fn emails_refused() {
    for e in [
        "", "plain", "@example.com", "jane@", "jane@.com", "jane@example.c", "jane@example.c0m",
        "jane@@example.com", "ja ne@example.com", "jane@example.com\n", "jäne@example.com",
    ] {
        let r = validate_email(e);
        assert_eq!(r.err().unwrap().kind(), ErrorKind::InvalidEmail, "{:?}", e);
    }
}

#[test]
fn names_accepted() {
    for n in ["Jane Doe", "O'Brien", "Smith, John", "Dr. Who", "Mary-Jane", "Route A", "A", "Ab  "] {
        assert!(validate_name(n).is_ok(), "{}", n);
    }
}

#[test]
fn names_refused() {
    for n in ["", "Bad!!", " Jane", "J4ne", "Anne--Marie", "Ab   ", "Jane-", "1st"] {
        let r = validate_name(n);
        assert_eq!(r.err().unwrap().kind(), ErrorKind::InvalidName, "{:?}", n);
    }
}

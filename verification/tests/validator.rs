use port_browser::validator::{format_url, suggest_port, validate_port_str, ValidationError};

#[test]
fn test_validate_port_str() {
    assert!(validate_port_str("").is_err());
    assert!(validate_port_str("abc").is_err());
    assert!(validate_port_str("0").is_err());
    assert!(validate_port_str("70000").is_err());
    assert_eq!(validate_port_str("8080").unwrap(), 8080);
    assert_eq!(validate_port_str(" 3000 ").unwrap(), 3000);
}

#[test]
fn test_format_url() {
    assert_eq!(format_url(8080, false), "http://localhost:8080");
    assert_eq!(format_url(443, true), "https://localhost:443");
}

#[test]
fn test_validate_empty_variants() {
    assert_eq!(validate_port_str(""), Err(ValidationError::Empty));
    assert_eq!(validate_port_str("   "), Err(ValidationError::Empty));
    assert_eq!(validate_port_str("\t\n"), Err(ValidationError::Empty));
}

#[test]
fn test_validate_not_number() {
    assert_eq!(validate_port_str("abc"), Err(ValidationError::NotNumber));
    assert_eq!(validate_port_str("80a"), Err(ValidationError::NotNumber));
    assert_eq!(validate_port_str("-1"), Err(ValidationError::NotNumber));
    assert_eq!(validate_port_str("+"), Err(ValidationError::NotNumber));
    // Too large even for 32 bits: indistinguishable from non-numeric input.
    assert_eq!(
        validate_port_str("99999999999999999999"),
        Err(ValidationError::NotNumber)
    );
}

#[test]
fn test_validate_zero() {
    assert_eq!(validate_port_str("0"), Err(ValidationError::ZeroNotAllowed));
    assert_eq!(validate_port_str(" 0 "), Err(ValidationError::ZeroNotAllowed));
}

#[test]
fn test_validate_out_of_range() {
    assert_eq!(
        validate_port_str("70000"),
        Err(ValidationError::OutOfRange(70000))
    );
    assert_eq!(
        validate_port_str("65536"),
        Err(ValidationError::OutOfRange(65536))
    );
    assert_eq!(validate_port_str("65535").unwrap(), 65535);
}

#[test]
fn test_validate_bounds_and_sign() {
    assert_eq!(validate_port_str("1").unwrap(), 1);
    assert_eq!(validate_port_str("+8080").unwrap(), 8080);
    assert_eq!(validate_port_str("  65535  ").unwrap(), 65535);
}

#[test]
fn test_format_url_digits() {
    assert_eq!(format_url(1, false), "http://localhost:1");
    assert_eq!(format_url(65535, false), "http://localhost:65535");
    assert_eq!(format_url(80, true), "https://localhost:80");
}

#[test]
fn test_suggest_port_first_free() {
    // Port 3000 taken, 3001 taken, 3002 free.
    let avail = vec![false, false, true, false];
    assert_eq!(suggest_port(3000, &avail), 3002);
}

#[test]
fn test_suggest_port_none_free() {
    let avail = vec![false; 100];
    assert_eq!(suggest_port(4200, &avail), 4200);
}

#[test]
fn test_suggest_port_span_cap() {
    // Only one hundred ports are probed, even with more answers supplied.
    let mut avail = vec![false; 150];
    avail[120] = true;
    assert_eq!(suggest_port(5000, &avail), 5000);
    // Near the top of the port range the span shrinks so that probing
    // never passes 65535.
    let mut high = vec![false; 100];
    high[50] = true;
    assert_eq!(suggest_port(65500, &high), 65500);
    high[20] = true;
    assert_eq!(suggest_port(65500, &high), 65520);
}

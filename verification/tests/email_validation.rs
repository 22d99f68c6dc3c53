use podkit::validation::{normalize_email, validate_email, EmailError};

fn err(s: &str) -> EmailError {
    validate_email(s).unwrap_err()
}

#[test]
fn doc_example_valid_address_normalizes_to_itself() {
    let ve = validate_email("user+tag@mail.example.com").unwrap();
    assert_eq!(ve.normalize(), "user+tag@mail.example.com");
    assert_eq!(ve.as_str(), "user+tag@mail.example.com");
}

#[test]
fn doc_example_consecutive_dots_rejected() {
    assert!(validate_email("bad..dots@example.com").is_err());
    assert_eq!(err("bad..dots@example.com"), EmailError::LocalPartConsecutiveDots);
}

#[test]
fn accepts_all_atext_characters() {
    assert!(validate_email("a!#$%&'*+-/=?^_`{|}~z@example.com").is_ok());
    assert!(validate_email("first.last@sub-domain.example.co").is_ok());
    assert!(validate_email("x@a.bc").is_ok());
}

#[test]
fn top_level_errors() {
    assert_eq!(err(""), EmailError::Empty);
    let long = format!("{}@example.com", "a".repeat(250));
    assert_eq!(err(&long), EmailError::TooLong);
    assert_eq!(err("userexample.com"), EmailError::MissingAt);
    assert_eq!(err("a@b@example.com"), EmailError::MultipleAt);
}

#[test]
fn length_limit_counts_bytes() {
    // 254 bytes exactly is accepted
    let local = "a".repeat(64);
    let domain = format!("{}.{}.{}.{}", "b".repeat(63), "c".repeat(63), "d".repeat(50), "ef");
    let ok = format!("{}@{}", local, domain);
    assert_eq!(ok.len(), 64 + 1 + 63 + 1 + 63 + 1 + 50 + 1 + 2);
    assert!(ok.len() <= 254);
    assert!(validate_email(&ok).is_ok());
    // multi-byte characters count by their bytes
    let wide = format!("{}@example.com", "é".repeat(40));
    assert_eq!(err(&wide), EmailError::LocalPartTooLong);
}

#[test]
fn local_part_errors() {
    assert_eq!(err("@example.com"), EmailError::LocalPartEmpty);
    assert_eq!(err(&format!("{}@example.com", "a".repeat(65))), EmailError::LocalPartTooLong);
    assert_eq!(err(".a@example.com"), EmailError::LocalPartLeadingDot);
    assert_eq!(err("a.@example.com"), EmailError::LocalPartTrailingDot);
    assert_eq!(err("a b@example.com"), EmailError::LocalPartInvalidChar(' '));
    assert_eq!(err("a\"b@example.com"), EmailError::LocalPartInvalidChar('"'));
    assert_eq!(err("jé@example.com"), EmailError::NonAscii('é'));
}

#[test]
fn domain_errors() {
    assert_eq!(err("a@"), EmailError::DomainEmpty);
    assert_eq!(err("a@[192.168.1.1]"), EmailError::DomainIpLiteralForbidden);
    assert_eq!(err("a@example.com."), EmailError::DomainTrailingDot);
    assert_eq!(err("a@localhost"), EmailError::DomainMissingTld);
    assert_eq!(err("a@.com"), EmailError::DomainLabelEmpty);
    assert_eq!(err("a@ex..com"), EmailError::DomainLabelEmpty);
    assert_eq!(err(&format!("a@{}.com", "b".repeat(64))), EmailError::DomainLabelTooLong);
    assert_eq!(err("a@-ex.com"), EmailError::DomainLabelLeadingHyphen);
    assert_eq!(err("a@ex-.com"), EmailError::DomainLabelTrailingHyphen);
    assert_eq!(err("a@e_x.com"), EmailError::DomainLabelInvalidChar('_'));
    assert_eq!(err("a@exämple.com"), EmailError::NonAscii('ä'));
    assert_eq!(err("a@example.c"), EmailError::DomainTldTooShort);
    assert_eq!(err("a@example.c0m"), EmailError::DomainTldNotAlpha);
    assert_eq!(err("a@example.cö"), EmailError::NonAscii('ö'));
}

#[test]
fn first_failing_label_reports() {
    // the first label breaks a rule before the second does
    assert_eq!(err("a@-x.y_.com"), EmailError::DomainLabelLeadingHyphen);
    assert_eq!(err("a@x.y_.com"), EmailError::DomainLabelInvalidChar('_'));
    // a second '@' is found before any other fault
    assert_eq!(err("é@@example.com"), EmailError::MultipleAt);
}

#[test]
fn normalization_lowercases_domain_only() {
    assert_eq!(normalize_email("John.Doe@Example.COM"), "John.Doe@example.com");
    assert_eq!(normalize_email("A@B"), "A@b");
    assert_eq!(normalize_email("Q@"), "Q@");
    let ve = validate_email("UsEr@MAIL.Example.Org").unwrap();
    assert_eq!(ve.normalize(), "UsEr@mail.example.org");
}

#[test]
fn normalization_is_idempotent_and_validates_alike() {
    for s in ["UsEr@MAIL.Example.Org", "bad..Dots@EXAMPLE.com", "x@Ex_AMPLE.COM", "a@B.C"] {
        let n = normalize_email(s);
        assert_eq!(normalize_email(&n), n);
        assert_eq!(validate_email(s).err(), validate_email(&n).err());
    }
}

#[test]
fn error_messages() {
    assert_eq!(EmailError::Empty.message(), "email is empty");
    assert_eq!(EmailError::TooLong.message(), "email exceeds 254 characters");
    assert_eq!(EmailError::LocalPartTooLong.message(), "local part exceeds 64 characters");
    assert_eq!(EmailError::DomainTooLong.message(), "domain exceeds 255 characters");
    assert_eq!(EmailError::DomainLabelTooLong.message(), "domain label exceeds 63 characters");
    assert_eq!(EmailError::DomainTldTooShort.message(), "TLD must be at least 2 characters");
    assert_eq!(
        EmailError::LocalPartInvalidChar(' ').message(),
        "invalid character in local part: ' '"
    );
    assert_eq!(
        EmailError::DomainLabelInvalidChar('\n').message(),
        "invalid character in domain label: '\\n'"
    );
    assert_eq!(
        EmailError::NonAscii('é').message(),
        "non-ASCII character 'é'; encode international domains as punycode"
    );
    assert_eq!(
        EmailError::DomainLabelEmpty.message(),
        "domain contains an empty label (leading or consecutive dots)"
    );
}

#[test]
fn tld_is_bounded_like_every_label() {
    let long = format!("a@example.{}", "c".repeat(64));
    assert_eq!(err(&long), EmailError::DomainLabelTooLong);
    let longest = format!("a@example.{}", "c".repeat(63));
    assert!(validate_email(&longest).is_ok());
}

#[test]
fn long_domain_is_too_long() {
    let d = format!("a@{}.com", "a".repeat(252));
    assert_eq!(err(&d), EmailError::TooLong);
}

#[test]
fn different_errors_have_different_messages() {
    let errors = vec![
        EmailError::Empty,
        EmailError::TooLong,
        EmailError::DomainLabelLeadingHyphen,
        EmailError::LocalPartInvalidChar('!'),
        EmailError::DomainLabelInvalidChar('!'),
        EmailError::NonAscii('é'),
    ];
    for (i, a) in errors.iter().enumerate() {
        for b in errors.iter().skip(i + 1) {
            assert_ne!(a.message(), b.message());
        }
    }
}

#[test]
fn messages_name_the_character() {
    assert_ne!(EmailError::LocalPartInvalidChar('a').message(), EmailError::LocalPartInvalidChar('b').message());
    assert_ne!(EmailError::NonAscii('é').message(), EmailError::NonAscii('\u{301}').message());
}

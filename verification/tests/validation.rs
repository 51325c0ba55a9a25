use vault_engine::text::{
    is_allowed_attachment, is_valid_email, is_valid_phone, levenshtein, normalize_domain,
    normalize_email, normalize_name, normalize_phone, sanitize_file_name,
};

#[test]
fn validates_email_format() {
    assert!(is_valid_email(&None));
    assert!(is_valid_email(&Some("".to_string())));
    assert!(is_valid_email(&Some("test@example.com".to_string())));
    assert!(!is_valid_email(&Some("bad-email".to_string())));
    assert!(!is_valid_email(&Some("no-at.example.com".to_string())));
    assert!(!is_valid_email(&Some("a@b".to_string())));
}

#[test]
fn validates_phone_format() {
    assert!(is_valid_phone(&None));
    assert!(is_valid_phone(&Some("".to_string())));
    assert!(is_valid_phone(&Some("+90 532 123 45 67".to_string())));
    assert!(is_valid_phone(&Some("(212) 555-1212".to_string())));
    assert!(!is_valid_phone(&Some("abc".to_string())));
    assert!(!is_valid_phone(&Some("12".to_string())));
}

#[test]
fn normalizes_domain_values() {
    assert_eq!(normalize_domain(&None), None);
    assert_eq!(normalize_domain(&Some("".to_string())), None);
    assert_eq!(
        normalize_domain(&Some(" https://example.com/path ".to_string())),
        Some("example.com".to_string())
    );
    assert_eq!(
        normalize_domain(&Some("http://example.com".to_string())),
        Some("example.com".to_string())
    );
    assert_eq!(
        normalize_domain(&Some("example.com".to_string())),
        Some("example.com".to_string())
    );
}

#[test]
fn normalizes_emails() {
    assert_eq!(normalize_email(&None), None);
    assert_eq!(normalize_email(&Some("   ".to_string())), None);
    assert_eq!(
        normalize_email(&Some("  John.Doe@Example.COM ".to_string())),
        Some("john.doe@example.com".to_string())
    );
}

#[test]
fn normalizes_phones() {
    assert_eq!(normalize_phone(&None), None);
    assert_eq!(normalize_phone(&Some("12-34".to_string())), None);
    assert_eq!(
        normalize_phone(&Some("+90 (532) 123 45 67".to_string())),
        Some("905321234567".to_string())
    );
}

#[test]
fn normalizes_names() {
    assert_eq!(normalize_name("John", "Doe"), "john doe".to_string());
    assert_eq!(normalize_name("  J.  ", "O'Neil "), "j oneil".to_string());
    assert_eq!(normalize_name("", ""), "".to_string());
}

#[test]
fn computes_edit_distance() {
    assert_eq!(levenshtein("", ""), 0);
    assert_eq!(levenshtein("abc", ""), 3);
    assert_eq!(levenshtein("", "abc"), 3);
    assert_eq!(levenshtein("kitten", "sitting"), 3);
    assert_eq!(levenshtein("flaw", "lawn"), 2);
    assert_eq!(levenshtein("same", "same"), 0);
}

#[test]
fn sanitizes_file_names() {
    assert_eq!(sanitize_file_name("report.pdf"), "report.pdf".to_string());
    assert_eq!(sanitize_file_name("a/b\\c.doc"), "a_b_c.doc".to_string());
    assert_eq!(sanitize_file_name("   "), "attachment".to_string());
    assert_eq!(sanitize_file_name(""), "attachment".to_string());
}

#[test]
fn accepts_only_document_attachments() {
    assert!(is_allowed_attachment("slides.PPTX"));
    assert!(is_allowed_attachment("cv.pdf"));
    assert!(is_allowed_attachment("letter.DocX"));
    assert!(is_allowed_attachment("deck.ppt"));
    assert!(is_allowed_attachment("memo.doc"));
    assert!(!is_allowed_attachment("photo.png"));
    assert!(!is_allowed_attachment("archive.zip"));
    assert!(!is_allowed_attachment("pdf"));
}

#[test]
fn validates_contact_inputs() {
    let base = vault_engine::records::CreateContactInput {
        first_name: "Ada".to_string(),
        last_name: "Lovelace".to_string(),
        title: None,
        company: None,
        company_id: None,
        city: None,
        country: None,
        email: Some("ada@example.com".to_string()),
        email_secondary: None,
        phone: Some("+44 20 7946 0958".to_string()),
        phone_secondary: None,
        linkedin_url: None,
        twitter_url: None,
        website: None,
        notes: None,
        next_touch_at: None,
    };
    assert!(vault_engine::records::contact_input_valid(&base));

    let mut bad_email = base.clone();
    bad_email.email = Some("not-an-email".to_string());
    assert!(!vault_engine::records::contact_input_valid(&bad_email));

    let mut bad_phone = base.clone();
    bad_phone.phone_secondary = Some("abc".to_string());
    assert!(!vault_engine::records::contact_input_valid(&bad_phone));
}

#[test]
fn trims_unicode_whitespace() {
    // U+00A0 (no-break space) is whitespace: a value of only that is blank.
    assert!(is_valid_email(&Some("\u{00A0}".to_string())));
    assert!(is_valid_phone(&Some("\u{00A0}".to_string())));
    assert!(is_valid_phone(&Some("\u{00A0}+90 532 123 45 67\u{2009}".to_string())));
    assert_eq!(normalize_domain(&Some("\u{00A0}".to_string())), None);
    assert_eq!(normalize_email(&Some("\u{00A0} \u{00A0}".to_string())), None);
    assert_eq!(sanitize_file_name("\u{00A0}"), "attachment".to_string());
}

#[test]
fn lowercases_unicode() {
    assert_eq!(
        normalize_email(&Some(" \u{00C9}MAIL@Example.COM\u{00A0}".to_string())),
        Some("\u{00E9}mail@example.com".to_string())
    );
    assert_eq!(
        normalize_name("\u{00C4}bc", "\u{00D6}yz"),
        "\u{00E4}bc \u{00F6}yz".to_string()
    );
    // A name of one Unicode letter survives normalisation.
    assert_eq!(normalize_name("\u{00C4}", ""), "\u{00E4}".to_string());
    assert!(is_allowed_attachment("R\u{00C9}SUM\u{00C9}.PDF"));
}

#[test]
fn edit_distance_is_byte_level() {
    // One two-byte character: distance to the empty string is 2.
    assert_eq!(levenshtein("\u{00E9}", ""), 2);
    assert_eq!(levenshtein("", "\u{00E9}"), 2);
    assert_eq!(levenshtein("caf\u{00E9}", "cafe"), 2);
}

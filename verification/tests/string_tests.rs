use nautilus_coinbase::string::{mask_api_key, to_snake_case, SemVer, SemVerParseError};

fn check_mask(input: &str, expected: &str) {
    assert_eq!(mask_api_key(input), expected);
}

#[test]
fn test_mask_api_key() {
    check_mask("", "");
    check_mask("a", "*");
    check_mask("abc", "***");
    check_mask("abcdefgh", "********");
    check_mask("abcdefghi", "abcd...fghi");
    check_mask("abcdefghijklmnop", "abcd...mnop");
    check_mask("VeryLongAPIKey123456789", "Very...6789");
}

#[test]
fn test_to_snake_case() {
    let cases = [
        ("CamelCase", "camel_case"),
        ("This is Human case.", "this_is_human_case"),
        ("MixedUP CamelCase, with some Spaces", "mixed_up_camel_case_with_some_spaces"),
        ("mixed_up_ snake_case with some _spaces", "mixed_up_snake_case_with_some_spaces"),
        ("kebab-case", "kebab_case"),
        ("SHOUTY_SNAKE_CASE", "shouty_snake_case"),
        ("snake_case", "snake_case"),
        ("XMLHttpRequest", "xml_http_request"),
        ("FIELD_NAME11", "field_name11"),
        ("99BOTTLES", "99bottles"),
        ("abc123def456", "abc123def456"),
        ("abc123DEF456", "abc123_def456"),
        ("abc123Def456", "abc123_def456"),
        ("abc123DEf456", "abc123_d_ef456"),
        ("ABC123def456", "abc123def456"),
        ("ABC123DEF456", "abc123def456"),
        ("ABC123Def456", "abc123_def456"),
        ("ABC123DEf456", "abc123d_ef456"),
        ("ABC123dEEf456FOO", "abc123d_e_ef456_foo"),
        ("abcDEF", "abc_def"),
        ("ABcDE", "a_bc_de"),
        ("", ""),
        ("A", "a"),
        ("AB", "ab"),
        ("PascalCase", "pascal_case"),
        ("camelCase", "camel_case"),
        ("getHTTPResponse", "get_http_response"),
        ("Level1", "level1"),
        ("OrderBookDelta", "order_book_delta"),
        ("IOError", "io_error"),
        ("SimpleHTTPServer", "simple_http_server"),
        ("version2Release", "version2_release"),
        ("ALLCAPS", "allcaps"),
        ("nautilus_model::data::bar::Bar", "nautilus_model_data_bar_bar"),
    ];
    for (input, expected) in cases {
        assert_eq!(to_snake_case(input), expected, "input {input:?}");
    }
}

#[test]
fn test_to_snake_case_unicode_input() {
    assert_eq!(to_snake_case("ÜberCase"), "über_case");
    assert_eq!(to_snake_case("naïveValue"), "naïve_value");
}

#[test]
fn test_semver_parse() {
    let cases = [
        ("6.2.0", 6, 2, 0),
        ("7.0.15", 7, 0, 15),
        ("0.0.1", 0, 0, 1),
        ("1", 1, 0, 0),
        ("2.5", 2, 5, 0),
    ];
    for (input, major, minor, patch) in cases {
        let v = SemVer::parse(input).unwrap();
        assert_eq!(v.major, major);
        assert_eq!(v.minor, minor);
        assert_eq!(v.patch, patch);
    }
}

#[test]
fn test_semver_display() {
    let v = SemVer::parse("7.2.4").unwrap();
    assert_eq!(v.to_string(), "7.2.4");
}

#[test]
fn test_semver_ordering() {
    let v620 = SemVer::parse("6.2.0").unwrap();
    let v700 = SemVer::parse("7.0.0").unwrap();
    let v621 = SemVer::parse("6.2.1").unwrap();
    let v630 = SemVer::parse("6.3.0").unwrap();

    assert!(v700 > v620);
    assert!(v621 > v620);
    assert!(v630 > v621);
    assert!(v700 >= v620);
    assert!(v620 >= v620);
}

#[test]
fn test_semver_parse_invalid() {
    assert!(SemVer::parse("abc").is_err());
}

#[test]
fn test_semver_parse_errors() {
    assert_eq!(SemVer::parse(""), Err(SemVerParseError::InvalidComponent));
    assert_eq!(SemVer::parse("1..2"), Err(SemVerParseError::InvalidComponent));
    assert_eq!(SemVer::parse("1.x"), Err(SemVerParseError::InvalidComponent));
    assert_eq!(SemVer::parse("18446744073709551616"), Err(SemVerParseError::InvalidComponent));
}

#[test]
fn test_semver_parse_checks_every_component() {
    assert_eq!(SemVer::parse("1.2.3.x"), Err(SemVerParseError::InvalidComponent));
    assert_eq!(SemVer::parse("1.2.3.4.y"), Err(SemVerParseError::InvalidComponent));
    assert_eq!(SemVer::parse("1.2.3."), Err(SemVerParseError::InvalidComponent));
    assert_eq!(SemVer::parse("1.2.3.4"), Ok(SemVer { major: 1, minor: 2, patch: 3 }));
    assert_eq!(SemVer::parse("1.2.3.4.5"), Ok(SemVer { major: 1, minor: 2, patch: 3 }));
}

#[test]
fn test_semver_string_round_trip() {
    for v in [
        SemVer { major: 0, minor: 0, patch: 0 },
        SemVer { major: 12, minor: 345, patch: 6789 },
        SemVer { major: u64::MAX, minor: 1, patch: 0 },
    ] {
        assert_eq!(SemVer::parse(&v.to_string()), Ok(v));
    }
}

#[test]
fn test_to_snake_case_idempotent_on_ascii() {
    for input in ["XMLHttpRequest", "camelCase", "__a--B  c__", "ABC123Def", "", "___", "already_snake_case"] {
        let once = to_snake_case(input);
        assert!(once.is_ascii());
        assert!(!once.starts_with('_') && !once.ends_with('_') && !once.contains("__"));
        assert_eq!(to_snake_case(&once), once);
    }
}

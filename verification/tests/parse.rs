use uuid_tools::FmtArgs;
use uuid_tools::ParseReason;
use uuid_tools::canonical;
use uuid_tools::parse_uuid;

#[test]
fn test_parse_uuid_canonical() {
    let result = parse_uuid("550e8400-e29b-41d4-a716-446655440000");
    assert!(result.is_ok());
    assert_eq!(
        canonical(&result.unwrap()),
        "550e8400-e29b-41d4-a716-446655440000"
    );
}

#[test]
fn test_parse_uuid_compact() {
    let result = parse_uuid("550e8400e29b41d4a716446655440000");
    assert!(result.is_ok());
}

#[test]
fn test_parse_uuid_hex_prefix() {
    let result = parse_uuid("0x550e8400e29b41d4a716446655440000");
    assert!(result.is_ok());
}

#[test]
fn test_parse_uuid_hex_prefix_uppercase() {
    let result = parse_uuid("0X550E8400E29B41D4A716446655440000");
    assert!(result.is_ok());
}

#[test]
fn test_parse_uuid_with_whitespace() {
    let result = parse_uuid("  550e8400-e29b-41d4-a716-446655440000  ");
    assert!(result.is_ok());
}

#[test]
fn fmt_test_parse_uuid_invalid() {
    let result = parse_uuid("not-a-uuid");
    assert!(result.is_err());
}

#[test]
fn test_parse_error_carries_input() {
    let err = parse_uuid("  not-a-uuid  ").unwrap_err();
    assert_eq!(err.input, "  not-a-uuid  ");
    assert!(matches!(
        err.reason,
        ParseReason::WrongLength { got: 10 }
    ));
}

#[test]
fn test_parse_error_bad_grouping() {
    let err = parse_uuid("550e84-00e29b-41d4-a716-446655440000").unwrap_err();
    assert!(matches!(err.reason, ParseReason::BadGrouping));
}

#[test]
fn test_parse_error_invalid_hex_digit() {
    let err = parse_uuid("g50e8400-e29b-41d4-a716-446655440000").unwrap_err();
    assert!(matches!(err.reason, ParseReason::InvalidHexDigit));

    let err = parse_uuid("g50e8400e29b41d4a716446655440000").unwrap_err();
    assert!(matches!(err.reason, ParseReason::InvalidHexDigit));
}

#[test]
fn test_parse_uuid_prefix_and_hyphens() {
    let result = parse_uuid("0x550e8400-e29b-41d4-a716-446655440000");
    assert!(result.is_ok());
}

#[test]
fn test_fmt_args_fields() {
    let args = FmtArgs {
        uuid: Some("550e8400-e29b-41d4-a716-446655440000".to_string()),
        compact: false,
        hex: false,
        uppercase: false,
    };
    assert!(args.uuid.is_some());
    assert!(!args.compact);
}

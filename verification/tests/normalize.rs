use uuid_tools::Format;
use uuid_tools::FormatOptions;
use uuid_tools::NormalizeArgs;
use uuid_tools::NormalizeError;
use uuid_tools::UuidValue;
use uuid_tools::format_uuid;
use uuid_tools::hex_to_bytes;
use uuid_tools::normalize_guid_bytes;
use uuid_tools::normalize_native_order;

#[test]
fn test_normalize_guid_bytes() {
    let input = hex_to_bytes("D004A78FD44C1B4E8213324AE10814DC").unwrap();
    let normalized = normalize_guid_bytes(input);
    let result = UuidValue::from_bytes(normalized);

    assert_eq!(
        format_uuid(
            &result,
            FormatOptions {
                format: Format::Compact,
                uppercase: true,
            },
        ),
        "8FA704D04CD44E1B8213324AE10814DC"
    );
}

#[test]
fn test_hex_to_bytes_valid() {
    let result = hex_to_bytes("550e8400e29b41d4a716446655440000");
    assert!(result.is_ok());
    let bytes = result.unwrap();
    assert_eq!(bytes[0], 0x55);
    assert_eq!(bytes[1], 0x0e);
}

#[test]
fn test_hex_to_bytes_invalid_length() {
    let result = hex_to_bytes("550e8400");
    assert!(result.is_err());
}

#[test]
fn test_hex_to_bytes_invalid_chars() {
    let result = hex_to_bytes("ZZZZ8400e29b41d4a716446655440000");
    assert!(result.is_err());
}

#[test]
fn test_normalize_preserves_last_8_bytes() {
    let input = hex_to_bytes("000000000000000001020304050607FF").unwrap();
    let normalized = normalize_guid_bytes(input);

    assert_eq!(
        normalized[8..16],
        [0x01, 0x02, 0x03, 0x04, 0x05, 0x06, 0x07, 0xFF]
    );
}

#[test]
fn test_normalize_reverses_first_4_bytes() {
    let input = hex_to_bytes("01020304000000000000000000000000").unwrap();
    let normalized = normalize_guid_bytes(input);

    assert_eq!(normalized[0..4], [0x04, 0x03, 0x02, 0x01]);
}

#[test]
fn test_normalize_reverses_data2() {
    let input = hex_to_bytes("00000000AABB00000000000000000000").unwrap();
    let normalized = normalize_guid_bytes(input);

    assert_eq!(normalized[4..6], [0xBB, 0xAA]);
}

#[test]
fn test_normalize_reverses_data3() {
    let input = hex_to_bytes("000000000000CCDD0000000000000000").unwrap();
    let normalized = normalize_guid_bytes(input);

    assert_eq!(normalized[6..8], [0xDD, 0xCC]);
}

#[test]
fn test_normalize_involution() {
    let input = hex_to_bytes("D004A78FD44C1B4E8213324AE10814DC").unwrap();
    let twice = normalize_guid_bytes(normalize_guid_bytes(input));
    assert_eq!(twice, input);
}

#[test]
fn test_normalize_native_order_literal() {
    let result = normalize_native_order("D004A78FD44C1B4E8213324AE10814DC");
    assert_eq!(result.unwrap(), "8FA704D04CD44E1B8213324AE10814DC");
}

#[test]
fn test_normalize_native_order_tolerates_decoration() {
    let result = normalize_native_order("  0xD004A78F-D44C-1B4E-8213-324AE10814DC  ");
    assert_eq!(result.unwrap(), "8FA704D04CD44E1B8213324AE10814DC");
}

#[test]
fn test_normalize_wrong_length() {
    let result = normalize_native_order("550e8400");
    assert!(matches!(
        result.unwrap_err(),
        NormalizeError::WrongLength { got: 8 }
    ));
}

#[test]
fn test_normalize_invalid_chunk() {
    let result = normalize_native_order("ZZ048400e29b41d4a716446655440000");
    assert!(matches!(
        result.unwrap_err(),
        NormalizeError::InvalidChunk {
            chunk: [0x5A, 0x5A],
        }
    ));
}

#[test]
fn test_normalize_args_fields() {
    let args = NormalizeArgs {
        uuid: "D004A78FD44C1B4E8213324AE10814DC".to_string(),
    };
    assert_eq!(args.uuid.len(), 32);
}

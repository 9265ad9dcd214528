use uuid_tools::Format;
use uuid_tools::FormatOptions;
use uuid_tools::UuidValue;
use uuid_tools::canonical;
use uuid_tools::compact;
use uuid_tools::format_uuid;
use uuid_tools::hex;
use uuid_tools::parse_uuid;
use uuid_tools::select_format;

fn test_uuid() -> UuidValue {
    parse_uuid("550e8400-e29b-41d4-a716-446655440000").unwrap()
}

#[test]
fn test_canonical() {
    assert_eq!(
        canonical(&test_uuid()),
        "550e8400-e29b-41d4-a716-446655440000"
    );
}

#[test]
fn test_compact() {
    assert_eq!(compact(&test_uuid()), "550e8400e29b41d4a716446655440000");
}

#[test]
fn test_hex() {
    assert_eq!(hex(&test_uuid()), "0x550e8400e29b41d4a716446655440000");
}

#[test]
fn test_format_uuid_canonical() {
    let options = FormatOptions {
        format: Format::Canonical,
        uppercase: false,
    };
    assert_eq!(
        format_uuid(&test_uuid(), options),
        "550e8400-e29b-41d4-a716-446655440000"
    );
}

#[test]
fn test_format_uuid_compact_uppercase() {
    let options = FormatOptions {
        format: Format::Compact,
        uppercase: true,
    };
    assert_eq!(
        format_uuid(&test_uuid(), options),
        "550E8400E29B41D4A716446655440000"
    );
}

#[test]
fn test_format_uuid_hex_uppercase() {
    let options = FormatOptions {
        format: Format::Hex,
        uppercase: true,
    };
    assert_eq!(
        format_uuid(&test_uuid(), options),
        "0X550E8400E29B41D4A716446655440000"
    );
}

#[test]
fn test_format_uuid_canonical_uppercase() {
    let options = FormatOptions {
        format: Format::Canonical,
        uppercase: true,
    };
    assert_eq!(
        format_uuid(&test_uuid(), options),
        "550E8400-E29B-41D4-A716-446655440000"
    );
}

#[test]
fn test_nil_formats() {
    let nil = UuidValue::nil();
    assert_eq!(canonical(&nil), "00000000-0000-0000-0000-000000000000");
    assert_eq!(compact(&nil), "00000000000000000000000000000000");
    assert_eq!(hex(&nil), "0x00000000000000000000000000000000");
}

#[test]
fn test_round_trip_all_shapes() {
    let v = test_uuid();
    for shape in [Format::Canonical, Format::Compact, Format::Hex] {
        for uppercase in [false, true] {
            let text = format_uuid(
                &v,
                FormatOptions {
                    format: shape,
                    uppercase,
                },
            );
            assert_eq!(parse_uuid(&text).unwrap(), v);
        }
    }
}

#[test]
fn test_uppercase_is_post_transform() {
    let v = test_uuid();
    for shape in [Format::Canonical, Format::Compact, Format::Hex] {
        let upper = format_uuid(
            &v,
            FormatOptions {
                format: shape,
                uppercase: true,
            },
        );
        let lower = format_uuid(
            &v,
            FormatOptions {
                format: shape,
                uppercase: false,
            },
        );
        assert_eq!(upper.to_lowercase(), lower.to_lowercase());
    }
}

#[test]
fn test_default_options() {
    let options = FormatOptions::default();
    assert_eq!(options.format, Format::Canonical);
    assert!(!options.uppercase);
    assert_eq!(Format::default(), Format::Canonical);
}

#[test]
fn test_select_format_precedence() {
    assert_eq!(select_format(false, false), Format::Canonical);
    assert_eq!(select_format(true, false), Format::Compact);
    assert_eq!(select_format(false, true), Format::Hex);
    assert_eq!(select_format(true, true), Format::Hex);
}

use uuid_tools::InfoArgs;
use uuid_tools::NilArgs;
use uuid_tools::Variant;
use uuid_tools::generate_v4;
use uuid_tools::generate_v7;
use uuid_tools::get_variant_name;
use uuid_tools::inspect;
use uuid_tools::parse_uuid;

#[test]
fn test_parse_uuid_valid() {
    let result = parse_uuid("550e8400-e29b-41d4-a716-446655440000");
    assert!(result.is_ok());
}

#[test]
fn test_parse_uuid_with_hex_prefix() {
    let result = parse_uuid("0x550e8400e29b41d4a716446655440000");
    assert!(result.is_ok());
}

#[test]
fn info_test_parse_uuid_invalid() {
    let result = parse_uuid("invalid");
    assert!(result.is_err());
}

#[test]
fn test_get_variant_name() {
    let uuid = parse_uuid("550e8400-e29b-41d4-a716-446655440000").unwrap();
    assert_eq!(get_variant_name(&uuid), "RFC4122");
}

#[test]
fn test_v4_uuid_version() {
    let uuid = generate_v4();
    assert_eq!(uuid.version_number(), 4);
}

#[test]
fn test_v7_uuid_version() {
    let uuid = generate_v7();
    assert_eq!(uuid.version_number(), 7);
}

#[test]
fn test_nil_args_default() {
    let args = NilArgs {
        uppercase: false,
        compact: false,
        hex: false,
    };
    assert!(!args.uppercase);
    assert!(!args.compact);
    assert!(!args.hex);
}

#[test]
fn test_info_args_fields() {
    let args = InfoArgs {
        uuid: "550e8400-e29b-41d4-a716-446655440000".to_string(),
    };
    assert_eq!(args.uuid.len(), 36);
}

#[test]
fn test_inspect_v4_fixture() {
    let uuid = parse_uuid("550e8400-e29b-41d4-a716-446655440000").unwrap();
    let report = inspect(&uuid);
    assert_eq!(report.version, 4);
    assert_eq!(report.variant, Variant::Rfc4122);
    assert!(report.random);
    assert!(report.timestamp.is_none());
    assert!(report.timestamp_ms.is_none());
}

#[test]
fn test_inspect_v1_timestamp() {
    let uuid = parse_uuid("C232AB00-9414-11EC-B3C8-9F6BDECED846").unwrap();
    let report = inspect(&uuid);
    assert_eq!(report.version, 1);
    assert_eq!(report.variant, Variant::Rfc4122);
    assert!(!report.random);
    assert_eq!(report.timestamp, Some((1645557742, 0)));
    assert!(report.timestamp_ms.is_none());
}

#[test]
fn test_inspect_v7_timestamp() {
    let uuid = parse_uuid("017F22E2-79B0-7CC3-98C4-DC0C0C07398F").unwrap();
    let report = inspect(&uuid);
    assert_eq!(report.version, 7);
    assert_eq!(report.variant, Variant::Rfc4122);
    assert!(!report.random);
    assert_eq!(report.timestamp, Some((1645557742, 0)));
    assert_eq!(report.timestamp_ms, Some(1645557742000));
}

#[test]
fn test_variant_classification() {
    let ncs = parse_uuid("550e8400-e29b-41d4-0716-446655440000").unwrap();
    assert_eq!(ncs.variant(), Variant::Ncs);
    assert_eq!(get_variant_name(&ncs), "NCS");

    let microsoft = parse_uuid("550e8400-e29b-41d4-c716-446655440000").unwrap();
    assert_eq!(microsoft.variant(), Variant::Microsoft);
    assert_eq!(get_variant_name(&microsoft), "Microsoft");

    let future = parse_uuid("550e8400-e29b-41d4-f716-446655440000").unwrap();
    assert_eq!(future.variant(), Variant::Future);
    assert_eq!(get_variant_name(&future), "Future");
}

#[test]
fn test_generated_timestamp_present() {
    let report = inspect(&generate_v7());
    assert!(report.timestamp.is_some());
    assert!(report.timestamp_ms.is_some());

    let report = inspect(&generate_v4());
    assert!(report.timestamp.is_none());
}

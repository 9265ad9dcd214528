use uuid_tools::GenArgs;
use uuid_tools::Version;
use uuid_tools::generate;
use uuid_tools::generate_v4;
use uuid_tools::generate_v7;

#[test]
fn test_generate_v4() {
    let uuid = generate_v4();
    assert_eq!(uuid.version_number(), 4);
}

#[test]
fn test_generate_v7() {
    let uuid = generate_v7();
    assert_eq!(uuid.version_number(), 7);
}

#[test]
fn test_generate_with_version() {
    let uuid_v4 = generate(Version::V4);
    assert_eq!(uuid_v4.version_number(), 4);

    let uuid_v7 = generate(Version::V7);
    assert_eq!(uuid_v7.version_number(), 7);
}

#[test]
fn test_version_from_str() {
    assert!(matches!(Version::from_str("v4"), Some(Version::V4)));
    assert!(matches!(Version::from_str("V4"), Some(Version::V4)));
    assert!(matches!(Version::from_str("4"), Some(Version::V4)));
    assert!(matches!(Version::from_str("v7"), Some(Version::V7)));
    assert!(matches!(Version::from_str("V7"), Some(Version::V7)));
    assert!(matches!(Version::from_str("7"), Some(Version::V7)));
    assert!(Version::from_str("v5").is_none());
    assert!(Version::from_str("invalid").is_none());
}

#[test]
fn test_version_default() {
    assert!(matches!(Version::default(), Version::V4));
}

#[test]
fn test_gen_args_default() {
    let args = GenArgs {
        version: "v4".to_string(),
        uppercase: false,
        compact: false,
        hex: false,
    };
    assert_eq!(args.version, "v4");
    assert!(!args.uppercase);
}

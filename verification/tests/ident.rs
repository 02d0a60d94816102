use lynx::ident::{LinkId, ValidationError};
use lynx::store::validate_output_file;

#[test]
fn test_id_validation() {
    // Valid cases
    assert!(LinkId::new("valid-id").is_ok());
    assert!(LinkId::new("with_underscore").is_ok());
    assert!(LinkId::new("with/slash").is_ok());

    // Invalid cases
    assert!(LinkId::new("").is_err()); // empty
    assert!(LinkId::new("has space").is_err()); // whitespace
    assert!(LinkId::new("has\\backslash").is_err()); // forbidden char
    assert!(LinkId::new("api").is_err()); // reserved
    assert!(LinkId::new("/leading").is_err()); // leading slash
    assert!(LinkId::new("trailing/").is_err()); // trailing slash
}

#[test]
fn rejection_reasons_are_deterministic() {
    assert_eq!(LinkId::new("").unwrap_err(), ValidationError::Empty);
    assert_eq!(LinkId::new("   ").unwrap_err(), ValidationError::Empty);
    assert_eq!(
        LinkId::new("has space").unwrap_err(),
        ValidationError::ContainsWhitespace
    );
    assert_eq!(
        LinkId::new("has\\backslash").unwrap_err(),
        ValidationError::ForbiddenChar
    );
    assert_eq!(LinkId::new("api").unwrap_err(), ValidationError::ReservedToken);
    assert_eq!(LinkId::new("/leading").unwrap_err(), ValidationError::SeparatorEdge);
    assert_eq!(LinkId::new("trailing/").unwrap_err(), ValidationError::SeparatorEdge);
    // Whitespace anywhere inside the trimmed token wins over a later rule.
    assert_eq!(
        LinkId::new("a b\\c").unwrap_err(),
        ValidationError::ContainsWhitespace
    );
}

#[test]
fn surrounding_whitespace_is_trimmed() {
    let id = LinkId::new("  padded\t").unwrap();
    assert_eq!(id.as_str(), "padded");
    // Trimming happens before the reserved-token rule.
    assert_eq!(LinkId::new(" api ").unwrap_err(), ValidationError::ReservedToken);
}

#[test]
fn output_file_path_must_not_be_a_directory() {
    assert_eq!(validate_output_file("config.toml").unwrap(), "config.toml");
    assert!(validate_output_file("dir/").is_err());
    assert!(validate_output_file("dir\\").is_err());
    assert!(validate_output_file("a/b/config.toml").is_ok());
}

use lynx::config::{LynxConfiguration, ParseError, RawLinkEntry};
use lynx::ident::{LinkId, ValidationError};
use lynx::link::{AppendMode, Link, LinkState, link_state, link_valid};
use lynx::resolve::ResolveError;
use lynx::store::ConfigStore;

fn entry(key: &str, redirect: &str) -> RawLinkEntry {
    RawLinkEntry {
        key: String::from(key),
        redirect: Some(String::from(redirect)),
        disabled: None,
        invalid_after: None,
        append_mode: None,
    }
}

fn entry_mode(key: &str, redirect: &str, mode: &str) -> RawLinkEntry {
    RawLinkEntry {
        key: String::from(key),
        redirect: Some(String::from(redirect)),
        disabled: None,
        invalid_after: None,
        append_mode: Some(String::from(mode)),
    }
}

fn snapshot(entries: Vec<RawLinkEntry>) -> LynxConfiguration {
    LynxConfiguration::from_entries(&entries).unwrap()
}

fn id(s: &str) -> LinkId {
    LinkId::new(s).unwrap()
}

#[test]
fn append_mode_none_ignores_trailing_path() {
    let snap = snapshot(vec![entry_mode("short", "https://example.com/base", "none")]);
    let r = snap.resolve(&id("short"), "/short/extra/path", 0).unwrap();
    assert_eq!(r, "https://example.com/base");
}

#[test]
fn append_mode_path_appends_trailing_path() {
    let snap = snapshot(vec![entry_mode("short", "https://example.com/base", "path")]);
    let r = snap.resolve(&id("short"), "/short/extra/path", 0).unwrap();
    assert_eq!(r, "https://example.com/base/extra/path");
}

#[test]
fn append_mode_preserve_query_keeps_redirect_query() {
    let snap = snapshot(vec![entry_mode(
        "short",
        "https://example.com/base?existing=param&foo=bar",
        "path_preserve_query",
    )]);
    let r = snap.resolve(&id("short"), "/short/extra/path", 0).unwrap();
    assert_eq!(r, "https://example.com/base/extra/path?existing=param&foo=bar");
}

#[test]
fn append_mode_preserve_query_without_trailing_is_unchanged() {
    let snap = snapshot(vec![entry_mode(
        "short",
        "https://example.com/base?keep=this",
        "path_preserve_query",
    )]);
    let r = snap.resolve(&id("short"), "/short", 0).unwrap();
    assert_eq!(r, "https://example.com/base?keep=this");
}

#[test]
fn append_mode_path_takes_query_from_trailing_content() {
    let snap = snapshot(vec![entry_mode(
        "short",
        "https://example.com/base?dropped=yes",
        "path",
    )]);
    let r = snap.resolve(&id("short"), "/short/extra?q=1", 0).unwrap();
    assert_eq!(r, "https://example.com/base/extra?q=1");
    // Query-only trailing content: nothing is appended to the path.
    let r = snap.resolve(&id("short"), "/short?q=2", 0).unwrap();
    assert_eq!(r, "https://example.com/base?q=2");
}

#[test]
fn plain_request_path_returns_redirect_exactly() {
    let snap = snapshot(vec![entry("short", "https://example.com/base")]);
    let r = snap.resolve(&id("short"), "/short", 0).unwrap();
    assert_eq!(r, "https://example.com/base");
}

#[test]
fn resolution_is_idempotent() {
    let snap = snapshot(vec![entry_mode("short", "https://example.com/base", "path")]);
    let a = snap.resolve(&id("short"), "/short/x", 7);
    let b = snap.resolve(&id("short"), "/short/x", 7);
    assert_eq!(a, b);
}

#[test]
fn redirects_are_normalized_urls() {
    // The stored redirect is the parsed URL's serialization, not the raw
    // field: an empty path gains its slash, scheme and host lose case.
    let snap = snapshot(vec![entry("short", "HTTPS://Example.COM")]);
    let r = snap.resolve(&id("short"), "/short", 0).unwrap();
    assert_eq!(r, "https://example.com/");
}

#[test]
fn absent_disabled_and_expired_links_are_indistinguishable() {
    let disabled = RawLinkEntry {
        key: String::from("off"),
        redirect: Some(String::from("https://example.com/")),
        disabled: Some(true),
        invalid_after: None,
        append_mode: None,
    };
    let expired = RawLinkEntry {
        key: String::from("old"),
        redirect: Some(String::from("https://example.com/")),
        disabled: None,
        invalid_after: Some(100),
        append_mode: None,
    };
    let snap = snapshot(vec![disabled, expired, entry("live", "https://example.com/")]);
    let now = 200;
    assert_eq!(snap.resolve(&id("off"), "/off", now).unwrap_err(), ResolveError::NotFound);
    assert_eq!(snap.resolve(&id("old"), "/old", now).unwrap_err(), ResolveError::NotFound);
    assert_eq!(snap.resolve(&id("gone"), "/gone", now).unwrap_err(), ResolveError::NotFound);
    assert!(snap.resolve(&id("live"), "/live", now).is_ok());
}

#[test]
fn expiry_is_strictly_after_the_timestamp() {
    let entry = RawLinkEntry {
        key: String::from("timed"),
        redirect: Some(String::from("https://example.com/")),
        disabled: None,
        invalid_after: Some(100),
        append_mode: None,
    };
    let snap = snapshot(vec![entry]);
    assert!(snap.resolve(&id("timed"), "/timed", 100).is_ok());
    assert!(snap.resolve(&id("timed"), "/timed", 101).is_err());
}

#[test]
fn link_state_machine() {
    let link = Link {
        redirect: String::from("https://example.com/"),
        disabled: false,
        invalid_after: Some(50),
        append_mode: AppendMode::NoAppend,
    };
    assert_eq!(link_state(&link, 50), LinkState::Valid);
    assert_eq!(link_state(&link, 51), LinkState::Expired);
    assert!(link_valid(&link, 50));
    assert!(!link_valid(&link, 51));
    let off = Link { disabled: true, ..link };
    // Disabled wins over expiry, independent of time.
    assert_eq!(link_state(&off, 51), LinkState::Disabled);
}

#[test]
fn round_trip_of_document_fields() {
    let full = RawLinkEntry {
        key: String::from("full"),
        redirect: Some(String::from("https://example.com/a?b=c")),
        disabled: Some(false),
        invalid_after: Some(99),
        append_mode: Some(String::from("path_preserve_query")),
    };
    let snap = snapshot(vec![full, entry("bare", "https://example.com/bare")]);
    let full_id = id("full");
    let link = snap.lookup(&full_id).unwrap();
    assert_eq!(link.redirect, "https://example.com/a?b=c");
    assert!(!link.disabled);
    assert_eq!(link.invalid_after, Some(99));
    assert_eq!(link.append_mode, AppendMode::PathPreserveQuery);
    // Documented defaults for absent fields.
    let bare_id = id("bare");
    let bare = snap.lookup(&bare_id).unwrap();
    assert!(!bare.disabled);
    assert_eq!(bare.invalid_after, None);
    assert_eq!(bare.append_mode, AppendMode::NoAppend);
    assert_eq!(snap.link_count(), 2);
}

#[test]
fn parse_errors_name_the_offending_entry() {
    let bad_key = RawLinkEntry {
        key: String::from("has space"),
        redirect: Some(String::from("https://example.com/")),
        disabled: None,
        invalid_after: None,
        append_mode: None,
    };
    assert_eq!(
        LynxConfiguration::from_entries(&vec![bad_key]).unwrap_err(),
        ParseError::InvalidIdentifier { index: 0, reason: ValidationError::ContainsWhitespace }
    );

    // Two raw keys that validate to the same identifier.
    let dup = vec![entry("abc", "https://example.com/"), entry(" abc ", "https://example.com/")];
    assert_eq!(
        LynxConfiguration::from_entries(&dup).unwrap_err(),
        ParseError::DuplicateIdentifier { index: 1 }
    );

    let missing = RawLinkEntry {
        key: String::from("a"),
        redirect: None,
        disabled: None,
        invalid_after: None,
        append_mode: None,
    };
    assert_eq!(
        LynxConfiguration::from_entries(&vec![missing]).unwrap_err(),
        ParseError::MissingRedirect { index: 0 }
    );

    // A relative reference is not an absolute URL with a scheme.
    assert_eq!(
        LynxConfiguration::from_entries(&vec![entry("a", "/relative/path")]).unwrap_err(),
        ParseError::InvalidRedirect { index: 0 }
    );

    let negative = RawLinkEntry {
        key: String::from("a"),
        redirect: Some(String::from("https://example.com/")),
        disabled: None,
        invalid_after: Some(-5),
        append_mode: None,
    };
    assert_eq!(
        LynxConfiguration::from_entries(&vec![negative]).unwrap_err(),
        ParseError::InvalidTimestamp { index: 0 }
    );

    assert_eq!(
        LynxConfiguration::from_entries(&vec![entry_mode(
            "a",
            "https://example.com/",
            "sideways"
        )])
        .unwrap_err(),
        ParseError::InvalidAppendMode { index: 0 }
    );
}

#[test]
fn whole_document_is_rejected_as_a_unit() {
    let entries = vec![entry("good", "https://example.com/"), entry("bad one", "https://example.com/")];
    assert!(LynxConfiguration::from_entries(&entries).is_err());
}

#[test]
fn store_keeps_old_snapshot_on_failed_reload() {
    let mut store = ConfigStore::load(&vec![entry("a", "https://example.com/one")]).unwrap();
    let a = id("a");
    assert_eq!(
        store.current().resolve(&a, "/a", 0).unwrap(),
        "https://example.com/one"
    );

    // An invalid rewrite is reported and changes nothing.
    let bad = vec![entry("api", "https://example.com/two")];
    assert!(store.reload(&bad).is_err());
    assert_eq!(
        store.current().resolve(&a, "/a", 0).unwrap(),
        "https://example.com/one"
    );

    // A valid rewrite replaces the snapshot in full.
    let good = vec![entry("b", "https://example.com/two")];
    assert!(store.reload(&good).is_ok());
    assert_eq!(
        store.current().resolve(&a, "/a", 0).unwrap_err(),
        ResolveError::NotFound
    );
    assert_eq!(
        store.current().resolve(&id("b"), "/b", 0).unwrap(),
        "https://example.com/two"
    );
}

#[test]
fn startup_load_fails_on_invalid_configuration() {
    assert!(ConfigStore::load(&vec![entry("a", "not a url")]).is_err());
    assert!(ConfigStore::load(&Vec::new()).is_ok());
}

#[test]
fn multi_segment_identifiers_resolve() {
    let snap = snapshot(vec![entry_mode("with/slash", "https://example.com/base", "path")]);
    let r = snap.resolve(&id("with/slash"), "/with/slash/tail", 0).unwrap();
    assert_eq!(r, "https://example.com/base/tail");
}

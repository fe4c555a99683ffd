use az::session::{ReadFilter, SessionMode, SessionParseError};

#[test]
fn parse_modes() {
    assert_eq!(SessionMode::parse("private").unwrap(), SessionMode::Private);
    assert_eq!(SessionMode::parse("Private").unwrap(), SessionMode::Private);
    assert_eq!(SessionMode::parse("p").unwrap(), SessionMode::Private);
    assert_eq!(
        SessionMode::parse("connected").unwrap(),
        SessionMode::Connected
    );
    assert_eq!(SessionMode::parse("c").unwrap(), SessionMode::Connected);
    assert!(SessionMode::parse("bogus").is_err());
}

#[test]
fn read_filter_mapping() {
    assert_eq!(SessionMode::Private.read_filter(), ReadFilter::All);
    assert_eq!(
        SessionMode::Connected.read_filter(),
        ReadFilter::ExcludeSensitive
    );
}

#[test]
fn resolve_cli_overrides_env() {
    let m = SessionMode::resolve_from(Some("private"), Some("connected")).unwrap();
    assert_eq!(m, SessionMode::Private);
}

#[test]
fn resolve_uses_env_then_default() {
    assert_eq!(
        SessionMode::resolve_from(None, Some("conn")).unwrap(),
        SessionMode::Connected
    );
    assert_eq!(SessionMode::resolve_from(None, None).unwrap(), SessionMode::DEFAULT);
    assert_eq!(SessionMode::DEFAULT, SessionMode::Private);
}

#[test]
fn parse_trims_and_lowers() {
    assert_eq!(SessionMode::parse("  CONNECTED\n").unwrap(), SessionMode::Connected);
    assert_eq!(SessionMode::parse("\tPriv ").unwrap(), SessionMode::Private);
    assert_eq!(SessionMode::parse("C").unwrap(), SessionMode::Connected);
}

#[test]
fn parse_error_carries_normalised_text() {
    match SessionMode::parse("  BoGuS  ") {
        Err(SessionParseError::UnknownMode(t)) => assert_eq!(t, "bogus"),
        other => panic!("unexpected {other:?}"),
    }
    match SessionMode::parse("") {
        Err(SessionParseError::UnknownMode(t)) => assert_eq!(t, ""),
        other => panic!("unexpected {other:?}"),
    }
}

#[test]
fn as_str_names_modes() {
    assert_eq!(SessionMode::Private.as_str(), "private");
    assert_eq!(SessionMode::Connected.as_str(), "connected");
    for m in [SessionMode::Private, SessionMode::Connected] {
        assert_eq!(SessionMode::parse(m.as_str()).unwrap(), m);
    }
}

#[test]
fn read_filter_admits() {
    assert!(ReadFilter::All.admits(true));
    assert!(ReadFilter::All.admits(false));
    assert!(!ReadFilter::ExcludeSensitive.admits(true));
    assert!(ReadFilter::ExcludeSensitive.admits(false));
    assert_eq!(ReadFilter::default(), ReadFilter::All);
}

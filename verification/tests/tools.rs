use az::backup::{is_plain_sqlite, restore_check, salt_path_for, vacuum_into_sql, RestoreCheck, VACUUM_IN_PLACE_SQL};
use az::chat::{check_transcript_input, classify_line, ChatLine};
use az::cli::{l0_path_or_default, DEFAULT_L0_PATH};
use az::embeddings::{fetch_query, items_to_embed, search_target_types, TARGET_BLOCK, TARGET_TRANSCRIPT};
use az::export::{default_path, format_from_payload};
use az::facts::{review_answer, review_effect, truncate, ReviewAction, ReviewEffect};
use az::links::{parse_kind_id, short_id};
use az::session::ReadFilter;

fn args(v: &[&str]) -> Vec<String> {
    v.iter().map(|s| s.to_string()).collect()
}

#[test]
fn truncate_keeps_short_text() {
    assert_eq!(truncate("abc", 3), "abc");
    assert_eq!(truncate("abcd", 3), "abc…");
    assert_eq!(truncate("ééé", 2), "éé…");
    assert_eq!(truncate("", 0), "");
}

#[test]
fn parse_kind_id_splits_at_first_colon() {
    assert_eq!(
        parse_kind_id("fact:abc123"),
        Some(("fact".to_string(), "abc123".to_string()))
    );
    assert_eq!(parse_kind_id("a:b:c"), Some(("a".to_string(), "b:c".to_string())));
    assert_eq!(parse_kind_id(":x"), Some((String::new(), "x".to_string())));
    assert_eq!(parse_kind_id("nocolon"), None);
}

#[test]
fn short_id_takes_eight_bytes() {
    assert_eq!(short_id("0123456789abcdef"), "01234567");
    assert_eq!(short_id("abc"), "abc");
    assert_eq!(short_id(""), "");
}

#[test]
fn format_extension_from_arguments() {
    assert_eq!(format_from_payload(&args(&["--format", "json"])), "json");
    assert_eq!(format_from_payload(&args(&["--output", "x", "--format", "md"])), "md");
    assert_eq!(format_from_payload(&args(&["--format", "markdown"])), "md");
    assert_eq!(format_from_payload(&args(&["--format", "jsonl", "--format", "json"])), "jsonl");
    assert_eq!(format_from_payload(&args(&["--format", "xml"])), "bin");
    assert_eq!(format_from_payload(&args(&["--format"])), "bin");
    assert_eq!(format_from_payload(&args(&[])), "bin");
}

#[test]
fn default_export_path_replaces_colons() {
    assert_eq!(
        default_path("2026-05-26T10:00:00Z", "json"),
        "./exports/az-2026-05-26T10-00-00Z.json"
    );
}

#[test]
fn chat_lines_are_classified() {
    assert_eq!(classify_line("\n"), ChatLine::Blank);
    assert_eq!(classify_line("  /quit \r\n"), ChatLine::Quit);
    assert_eq!(classify_line("/exit"), ChatLine::Quit);
    assert_eq!(classify_line("/help\n"), ChatLine::Help);
    assert_eq!(classify_line("/session"), ChatLine::ShowSession);
    assert_eq!(classify_line("/safe\n"), ChatLine::SafeAlone);
    assert_eq!(
        classify_line("/safe  demain il pleut \n"),
        ChatLine::Utterance { content: "demain il pleut".into(), sensitivity: false }
    );
    assert_eq!(
        classify_line(" bonjour\n"),
        ChatLine::Utterance { content: "bonjour".into(), sensitivity: true }
    );
    assert_eq!(
        classify_line("/safety"),
        ChatLine::Utterance { content: "/safety".into(), sensitivity: true }
    );
}

#[test]
fn embedding_search_defaults_to_both_types() {
    assert_eq!(search_target_types(&Vec::new()), args(&[TARGET_TRANSCRIPT, TARGET_BLOCK]));
    assert_eq!(search_target_types(&args(&["block"])), args(&["block"]));
}

#[test]
fn embedding_fetch_query_by_type_and_filter() {
    let q = fetch_query("transcript", ReadFilter::All).unwrap();
    assert_eq!(
        q,
        "SELECT embeddings.target_id, transcripts.content, transcripts.sensitivity, embeddings.vector \
         FROM embeddings JOIN transcripts ON transcripts.id = embeddings.target_id \
         WHERE embeddings.target_type = ?1 AND embeddings.model = ?2"
    );
    let q = fetch_query("block", ReadFilter::ExcludeSensitive).unwrap();
    assert!(q.ends_with("?2 AND l1_blocks.sensitivity = 0"));
    assert!(q.contains("JOIN l1_blocks ON l1_blocks.id"));
    assert!(fetch_query("page", ReadFilter::All).is_none());
}

#[test]
fn restore_checks_in_order() {
    assert_eq!(restore_check(false, false, true, false), RestoreCheck::SourceMissing);
    assert_eq!(restore_check(true, false, true, false), RestoreCheck::SaltMissing);
    assert_eq!(restore_check(true, true, true, false), RestoreCheck::DestinationExists);
    assert_eq!(restore_check(true, true, true, true), RestoreCheck::Proceed);
    assert_eq!(restore_check(true, true, false, false), RestoreCheck::Proceed);
}

#[test]
fn backup_statements() {
    assert_eq!(vacuum_into_sql("/tmp/o'k.sqlite"), "VACUUM INTO '/tmp/o''k.sqlite'");
    assert_eq!(salt_path_for("b.sqlite"), "b.sqlite.salt");
    assert!(VACUUM_IN_PLACE_SQL.contains("VACUUM"));
}

#[test]
fn l0_path_prefers_environment() {
    assert_eq!(l0_path_or_default(Some("/x.sqlite".into())), "/x.sqlite");
    assert_eq!(l0_path_or_default(None), DEFAULT_L0_PATH);
}

#[test]
fn review_answers_are_single_letters_either_case() {
    assert_eq!(review_answer("y\n"), Some(ReviewAction::Validate));
    assert_eq!(review_answer("  N "), Some(ReviewAction::Delete));
    assert_eq!(review_answer("e"), Some(ReviewAction::Edit));
    assert_eq!(review_answer("S\r\n"), Some(ReviewAction::Skip));
    assert_eq!(review_answer("q"), Some(ReviewAction::Quit));
    assert_eq!(review_answer("yes"), None);
    assert_eq!(review_answer(""), None);
    assert_eq!(review_answer("x"), None);
}

#[test]
fn plain_sqlite_header_is_recognised() {
    let mut plain = b"SQLite format 3\0".to_vec();
    plain.extend_from_slice(&[1, 2, 3]);
    assert!(is_plain_sqlite(&plain));
    assert!(is_plain_sqlite(b"SQLite format 3\0"));
    assert!(!is_plain_sqlite(b"SQLite format 3"));
    assert!(!is_plain_sqlite(&[0xAB; 32]));
    assert!(!is_plain_sqlite(&[]));
}

#[test]
fn new_ids_are_hyphenated_lowercase_v4_uuids() {
    for _ in 0..50 {
        let id = az::stamp::new_id();
        let cs: Vec<char> = id.chars().collect();
        assert_eq!(cs.len(), 36);
        for (i, c) in cs.iter().enumerate() {
            if i == 8 || i == 13 || i == 18 || i == 23 {
                assert_eq!(*c, '-');
            } else {
                assert!(c.is_ascii_digit() || ('a'..='f').contains(c), "{id}");
            }
        }
        assert_eq!(cs[14], '4');
        assert!(matches!(cs[19], '8' | '9' | 'a' | 'b'));
    }
    assert_ne!(az::stamp::new_id(), az::stamp::new_id());
}

#[test]
fn now_is_rfc3339_utc_text() {
    let t = az::stamp::now_rfc3339().unwrap();
    let cs: Vec<char> = t.chars().collect();
    assert!(cs.len() >= 20 && cs.len() <= 30, "{t}");
    for i in [4, 7] {
        assert_eq!(cs[i], '-');
    }
    assert_eq!(cs[10], 'T');
    assert_eq!(cs[13], ':');
    assert_eq!(cs[16], ':');
    assert_eq!(*cs.last().unwrap(), 'Z');
    for i in [0, 1, 2, 3, 5, 6, 8, 9, 11, 12, 14, 15, 17, 18] {
        assert!(cs[i].is_ascii_digit(), "{t}");
    }
    if cs.len() > 20 {
        assert_eq!(cs[19], '.');
        assert!(cs[20..cs.len() - 1].iter().all(|c| c.is_ascii_digit()));
    }
}

fn draft() -> az::l2::Fact {
    az::l2::Fact {
        id: "f1".into(),
        version: 1,
        fact_type: "note".into(),
        payload: "{\"a\":1}".into(),
        block_id: Some("b1".into()),
        sensitivity: true,
        created_at: "2026-01-01T00:00:00Z".into(),
        validated_at: None,
    }
}

#[test]
fn review_effects_of_each_answer() {
    let f = draft();
    let sources = vec!["t1".to_string(), "t2".to_string()];
    let now = "2026-02-02T00:00:00Z".to_string();
    match review_effect(&f, &sources, ReviewAction::Validate, &now, None) {
        ReviewEffect::Validate(v) => {
            assert_eq!(v.validated_at.as_deref(), Some("2026-02-02T00:00:00Z"));
            assert_eq!(v.version, 1);
            assert_eq!(v.payload, f.payload);
            assert_eq!(v.id, "f1");
        }
        other => panic!("unexpected {other:?}"),
    }
    match review_effect(&f, &sources, ReviewAction::Delete, &now, None) {
        ReviewEffect::Delete { id, version } => {
            assert_eq!(id, "f1");
            assert_eq!(version, 1);
        }
        other => panic!("unexpected {other:?}"),
    }
    match review_effect(&f, &sources, ReviewAction::Edit, &now, Some("{\"a\":2}".into())) {
        ReviewEffect::NewVersion { fact, sources: s } => {
            assert_eq!(fact.id, "f1");
            assert_eq!(fact.version, 2);
            assert_eq!(fact.payload, "{\"a\":2}");
            assert_eq!(fact.validated_at.as_deref(), Some("2026-02-02T00:00:00Z"));
            assert_eq!(fact.block_id.as_deref(), Some("b1"));
            assert_eq!(s, sources);
        }
        other => panic!("unexpected {other:?}"),
    }
    assert!(matches!(
        review_effect(&f, &sources, ReviewAction::Edit, &now, None),
        ReviewEffect::Nothing
    ));
    assert!(matches!(
        review_effect(&f, &sources, ReviewAction::Skip, &now, None),
        ReviewEffect::Nothing
    ));
}

#[test]
fn embedding_pass_skips_items_already_embedded() {
    let pairs = vec![
        ("a".to_string(), "x".to_string()),
        ("b".to_string(), "y".to_string()),
        ("c".to_string(), "z".to_string()),
    ];
    let todo = items_to_embed(&pairs, &vec!["b".to_string(), "q".to_string()]);
    assert_eq!(todo, vec![("a".to_string(), "x".to_string()), ("c".to_string(), "z".to_string())]);
    assert_eq!(pairs.len() - todo.len(), 1);
    assert!(items_to_embed(&pairs, &vec!["a".into(), "b".into(), "c".into()]).is_empty());
}

#[test]
fn transcript_input_is_trimmed_and_checked() {
    assert_eq!(check_transcript_input("s1", "  bonjour \n"), Ok("bonjour".to_string()));
    assert_eq!(check_transcript_input("s1", "   "), Err("contenu vide".to_string()));
    assert_eq!(check_transcript_input("  ", "texte"), Err("session_id manquant".to_string()));
    assert_eq!(check_transcript_input("", ""), Err("contenu vide".to_string()));
}

#[test]
fn second_embedding_pass_embeds_nothing() {
    let pairs = vec![
        ("a".to_string(), "x".to_string()),
        ("b".to_string(), "y".to_string()),
    ];
    let mut existing = vec!["b".to_string()];
    let first = items_to_embed(&pairs, &existing);
    assert_eq!(first.len(), 1);
    existing.extend(first.iter().map(|(id, _)| id.clone()));
    assert!(items_to_embed(&pairs, &existing).is_empty());
}

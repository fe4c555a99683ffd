use az::l0::L0Entry;
use az::segmenter::{plan_segmentation, plan_segmentation_at, segmentation_prompt, LlmBlock, SegmentError, PROMPT_VERSION};
use az::session::SessionMode;

fn entry(id: &str, ts: &str, content: &str, sensitivity: bool) -> L0Entry {
    L0Entry {
        id: id.into(),
        timestamp: ts.into(),
        content: content.into(),
        source: "chat".into(),
        session_id: "S".into(),
        sensitivity,
    }
}

fn block(topic: &str, ids: &[&str], content: &str) -> LlmBlock {
    LlmBlock {
        topic: topic.into(),
        transcript_ids: ids.iter().map(|s| s.to_string()).collect(),
        content: content.into(),
    }
}

fn mixed() -> Vec<L0Entry> {
    vec![
        entry("sens", "2026-01-01T00:00:00Z", "j'ai depense 50 euros", true),
        entry("safe", "2026-01-01T00:00:01Z", "il fera beau demain", false),
    ]
}

#[test]
fn segments_and_writes_l1() {
    let tx = vec![
        entry("t1", "2026-01-01T00:00:00Z", "j'ai mange une pomme", true),
        entry("t2", "2026-01-01T00:00:00Z", "elle etait tres bonne", true),
        entry("t3", "2026-01-01T00:00:00Z", "demain il fera beau", true),
    ];
    let llm = vec![
        block("Pomme", &["t1", "t2"], "L'utilisateur décrit une pomme savoureuse."),
        block("Météo", &["t3"], "Prévision pour demain."),
    ];
    let plan = plan_segmentation("S", "test-model", &tx, SessionMode::Private, &llm).unwrap();
    assert_eq!(plan.segmentation.model, "test-model");
    assert_eq!(plan.segmentation.session_id, "S");
    assert_eq!(plan.segmentation.prompt_version, PROMPT_VERSION);
    assert_eq!(plan.blocks.len(), 2);
    assert_eq!(plan.blocks[0].seq, 0);
    assert_eq!(plan.blocks[0].topic.as_deref(), Some("Pomme"));
    assert_eq!(plan.blocks[1].topic.as_deref(), Some("Météo"));
    let s1: Vec<&String> = plan
        .sources
        .iter()
        .filter(|(b, _)| *b == plan.blocks[0].id)
        .map(|(_, t)| t)
        .collect();
    assert!(s1.contains(&&"t1".to_string()) && s1.contains(&&"t2".to_string()));
    let s2: Vec<String> = plan
        .sources
        .iter()
        .filter(|(b, _)| *b == plan.blocks[1].id)
        .map(|(_, t)| t.clone())
        .collect();
    assert_eq!(s2, vec!["t3".to_string()]);
}

#[test]
fn hallucinated_ids_are_dropped() {
    let tx = vec![entry("real", "2026-01-01T00:00:00Z", "vrai contenu", true)];
    let llm = vec![block("X", &["real", "ghost"], "x")];
    let plan = plan_segmentation("S", "m", &tx, SessionMode::Private, &llm).unwrap();
    let srcs: Vec<String> = plan.sources.iter().map(|(_, t)| t.clone()).collect();
    assert_eq!(srcs, vec!["real".to_string()]);
}

#[test]
fn empty_session_returns_error() {
    let err = segmentation_prompt("missing", &Vec::new(), SessionMode::Private).unwrap_err();
    assert!(matches!(err, SegmentError::EmptySession(_)));
}

#[test]
fn connected_mode_drops_sensitive_transcripts() {
    let user = segmentation_prompt("S", &mixed(), SessionMode::Connected).unwrap();
    assert!(
        !user.contains("\"sens\""),
        "ID sensible présent dans le prompt: {}",
        user
    );
    assert!(!user.contains("50 euros"), "contenu sensible présent: {}", user);
    assert!(user.contains("\"safe\""));
}

#[test]
fn private_mode_keeps_sensitive_transcripts() {
    let user = segmentation_prompt("S", &mixed(), SessionMode::Private).unwrap();
    assert!(user.contains("\"sens\""));
    assert!(user.contains("50 euros"));
}

#[test]
fn block_inherits_sensitivity_from_sources() {
    let llm = vec![
        block("A", &["safe"], "x"),
        block("B", &["sens"], "y"),
        block("C", &["safe", "sens"], "z"),
    ];
    let plan = plan_segmentation("S", "m", &mixed(), SessionMode::Private, &llm).unwrap();
    assert_eq!(plan.blocks.len(), 3);
    assert!(
        !plan.blocks[0].sensitivity,
        "bloc issu uniquement de 'safe' devrait être non sensible"
    );
    assert!(plan.blocks[1].sensitivity, "bloc issu de 'sens' doit rester sensible");
    assert!(
        plan.blocks[2].sensitivity,
        "bloc mixte (safe + sens) doit être sensible (OR conservateur)"
    );
}

#[test]
fn block_with_only_unknown_sources_defaults_sensitive() {
    let tx = vec![entry("real", "2026-01-01T00:00:00Z", "x", false)];
    let llm = vec![block("X", &["ghost1", "ghost2"], "z")];
    let plan = plan_segmentation("S", "m", &tx, SessionMode::Private, &llm).unwrap();
    assert_eq!(plan.blocks.len(), 1);
    assert!(
        plan.blocks[0].sensitivity,
        "défaut conservateur quand toutes les sources sont hallucinées"
    );
    assert!(plan.sources.is_empty());
}

#[test]
fn connected_plan_ignores_sensitive_sources() {
    let llm = vec![block("X", &["sens", "safe"], "x")];
    let plan = plan_segmentation("S", "m", &mixed(), SessionMode::Connected, &llm).unwrap();
    let srcs: Vec<String> = plan.sources.iter().map(|(_, t)| t.clone()).collect();
    assert_eq!(srcs, vec!["safe".to_string()]);
    assert!(!plan.blocks[0].sensitivity);
}

#[test]
fn blocks_share_segmentation_and_are_numbered() {
    let llm = vec![block("A", &[], "a"), block("B", &["safe"], "b")];
    let plan = plan_segmentation("S", "m", &mixed(), SessionMode::Private, &llm).unwrap();
    for (i, b) in plan.blocks.iter().enumerate() {
        assert_eq!(b.seq, i as i64);
        assert_eq!(b.segmentation_id, plan.segmentation.id);
    }
    assert_ne!(plan.blocks[0].id, plan.blocks[1].id);
    assert_eq!(plan.blocks[0].content, "a");
    assert!(plan.blocks[0].sensitivity);
    assert!(plan.segmentation.notes.is_none());
}

#[test]
fn segmentation_prompt_is_exact_json() {
    let tx = vec![entry("a\"b", "t", "x\ny\\z\u{1}", false)];
    let user = segmentation_prompt("S", &tx, SessionMode::Private).unwrap();
    assert_eq!(
        user,
        "[{\"id\":\"a\\\"b\",\"timestamp\":\"t\",\"content\":\"x\\ny\\\\z\\u0001\"}]"
    );
    let v: serde_json::Value = serde_json::from_str(&user).unwrap();
    assert_eq!(v[0]["content"], "x\ny\\z\u{1}");
    assert_eq!(v[0]["id"], "a\"b");
}

#[test]
fn segmentation_prompt_matches_serde_json_strings() {
    let tx = mixed();
    let user = segmentation_prompt("S", &tx, SessionMode::Private).unwrap();
    let mut expected = String::from("[");
    for (i, e) in tx.iter().enumerate() {
        if i > 0 {
            expected.push(',');
        }
        expected.push_str("{\"id\":");
        expected.push_str(&serde_json::to_string(&e.id).unwrap());
        expected.push_str(",\"timestamp\":");
        expected.push_str(&serde_json::to_string(&e.timestamp).unwrap());
        expected.push_str(",\"content\":");
        expected.push_str(&serde_json::to_string(&e.content).unwrap());
        expected.push('}');
    }
    expected.push(']');
    assert_eq!(user, expected);
}

#[test]
fn plan_at_a_given_time_uses_that_time() {
    let llm = vec![block("A", &["sens", "safe"], "c")];
    let plan = plan_segmentation_at(
        "S",
        "m",
        &mixed(),
        SessionMode::Private,
        &llm,
        "2026-03-03T03:03:03Z".to_string(),
    );
    assert_eq!(plan.segmentation.created_at, "2026-03-03T03:03:03Z");
    assert_eq!(plan.segmentation.session_id, "S");
    assert_eq!(plan.blocks.len(), 1);
    assert!(plan.blocks[0].sensitivity);
    assert_eq!(plan.sources.len(), 2);
}

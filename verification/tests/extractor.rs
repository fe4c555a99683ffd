use az::extractor::{
    default_true, drafts_at, extraction_prompt, plan_drafts, ExtractError, LlmFact, SourcedBlock,
};
use az::l1::Block;
use az::session::SessionMode;

fn seed_blocks() -> Vec<SourcedBlock> {
    vec![
        (
            Block {
                id: "b_sens".into(),
                segmentation_id: "seg1".into(),
                seq: 0,
                topic: Some("Finance".into()),
                content: "Dépense de 50 euros".into(),
                sensitivity: true,
            },
            vec!["t_sens".to_string()],
        ),
        (
            Block {
                id: "b_safe".into(),
                segmentation_id: "seg1".into(),
                seq: 1,
                topic: Some("Météo".into()),
                content: "Pluie prévue".into(),
                sensitivity: false,
            },
            vec!["t_safe".to_string()],
        ),
    ]
}

fn fact(t: &str, payload: &str, ids: &[&str], block: Option<&str>, sensitivity: bool) -> LlmFact {
    LlmFact {
        fact_type: t.into(),
        payload: payload.into(),
        transcript_ids: ids.iter().map(|s| s.to_string()).collect(),
        block_id: block.map(|s| s.to_string()),
        sensitivity,
    }
}

#[test]
fn extracts_from_blocks_with_mock_llm() {
    let facts = vec![
        fact(
            "transaction",
            "{\"amount\":50,\"currency\":\"EUR\"}",
            &["t_sens"],
            Some("b_sens"),
            true,
        ),
        fact(
            "event",
            "{\"event\":\"rain\",\"when\":\"tomorrow\"}",
            &["t_safe"],
            Some("b_safe"),
            false,
        ),
    ];
    let drafts = plan_drafts(&seed_blocks(), SessionMode::Private, &facts).unwrap();
    assert_eq!(drafts.len(), 2);
    assert!(drafts.iter().any(|d| d.fact.fact_type == "transaction"));
    assert!(drafts.iter().any(|d| d.fact.fact_type == "event"));
    assert!(drafts.iter().all(|d| d.fact.validated_at.is_none() && d.fact.version == 1));
    assert_eq!(drafts[0].sources, vec!["t_sens".to_string()]);
    assert_eq!(drafts[0].fact.created_at, drafts[1].fact.created_at);
    assert_ne!(drafts[0].fact.id, drafts[1].fact.id);
}

#[test]
fn connected_mode_drops_sensitive_blocks_from_prompt() {
    let user = extraction_prompt("seg1", &seed_blocks(), SessionMode::Connected).unwrap();
    assert!(!user.contains("b_sens"));
    assert!(!user.contains("Finance"));
    assert!(user.contains("b_safe"));
    assert!(user.contains("Météo"));
}

#[test]
fn hallucinated_block_id_is_dropped() {
    let facts = vec![
        fact("x", "{}", &[], Some("ghost-block"), true),
        fact("y", "{}", &[], Some("b_safe"), false),
    ];
    let drafts = plan_drafts(&seed_blocks(), SessionMode::Private, &facts).unwrap();
    assert_eq!(drafts.len(), 1);
    assert_eq!(drafts[0].fact.fact_type, "y");
}

#[test]
fn empty_segmentation_errors() {
    let err = extraction_prompt("missing-seg", &Vec::new(), SessionMode::Private).unwrap_err();
    assert!(matches!(err, ExtractError::EmptySegmentation(ref s) if s == "missing-seg"));
}

#[test]
fn fact_without_block_is_kept() {
    let facts = vec![fact("note", "{\"x\":1}", &["t"], None, true)];
    let drafts = plan_drafts(&seed_blocks(), SessionMode::Private, &facts).unwrap();
    assert_eq!(drafts.len(), 1);
    assert!(drafts[0].fact.block_id.is_none());
    assert_eq!(drafts[0].fact.payload, "{\"x\":1}");
}

#[test]
fn connected_mode_drops_facts_of_sensitive_blocks() {
    let facts = vec![
        fact("a", "{}", &[], Some("b_sens"), true),
        fact("b", "{}", &[], Some("b_safe"), false),
    ];
    let drafts = plan_drafts(&seed_blocks(), SessionMode::Connected, &facts).unwrap();
    assert_eq!(drafts.len(), 1);
    assert_eq!(drafts[0].fact.fact_type, "b");
}

#[test]
fn extraction_prompt_is_exact_json() {
    let mut blocks = seed_blocks();
    blocks[1].0.topic = None;
    let user = extraction_prompt("seg1", &blocks, SessionMode::Connected).unwrap();
    assert_eq!(
        user,
        "[{\"block_id\":\"b_safe\",\"topic\":null,\"content\":\"Pluie prévue\",\"transcript_ids\":[\"t_safe\"]}]"
    );
    let v: serde_json::Value = serde_json::from_str(&user).unwrap();
    assert!(v[0]["topic"].is_null());
}

#[test]
fn missing_sensitivity_defaults_to_true() {
    assert!(default_true());
}

#[test]
fn drafts_at_a_given_time_carry_that_time() {
    let facts = vec![
        fact("note", "{}", &["t1"], None, false),
        fact("note", "{}", &[], Some("unknown-block"), true),
    ];
    let drafts = drafts_at(&seed_blocks(), SessionMode::Private, &facts, "T0".to_string());
    assert_eq!(drafts.len(), 1);
    assert_eq!(drafts[0].fact.created_at, "T0");
    assert_eq!(drafts[0].fact.version, 1);
    assert!(drafts[0].fact.validated_at.is_none());
    assert_eq!(drafts[0].sources, vec!["t1".to_string()]);
}

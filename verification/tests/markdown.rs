use az::l0::L0Entry;
use az::l1::{Block, Segmentation};
use az::l2::Fact;
use az::markdown::{markdown_from_parts, pretty_payload, render_markdown};
use az::order::{sorted_session_ids, text_lt};
use az::text::{int_text, nat_text};

fn entry(id: &str, ts: &str, content: &str, source: &str, session: &str, sensitive: bool) -> L0Entry {
    L0Entry {
        id: id.into(),
        timestamp: ts.into(),
        content: content.into(),
        source: source.into(),
        session_id: session.into(),
        sensitivity: sensitive,
    }
}

fn fact(id: &str, version: i64, t: &str, payload: &str, validated: Option<&str>, sensitive: bool) -> Fact {
    Fact {
        id: id.into(),
        version,
        fact_type: t.into(),
        payload: payload.into(),
        block_id: None,
        sensitivity: sensitive,
        created_at: "2026-01-01T00:00:00Z".into(),
        validated_at: validated.map(|v| v.to_string()),
    }
}

fn sample() -> (
    Vec<L0Entry>,
    Vec<(Segmentation, Vec<(Block, Vec<String>)>)>,
    Vec<(Fact, Vec<String>)>,
) {
    let entries = vec![
        entry("t1", "2026-01-01T00:00:00Z", "bonjour", "chat", "s-b", true),
        entry("t2", "2026-01-01T00:00:01Z", "salut", "voice", "s-a", false),
        entry("t3", "2026-01-01T00:00:02Z", "encore", "chat", "s-b", false),
    ];
    let seg = Segmentation {
        id: "seg1".into(),
        created_at: "2026-01-01T00:01:00Z".into(),
        session_id: "s-b".into(),
        model: "m".into(),
        prompt_version: "v1".into(),
        notes: None,
    };
    let b1 = Block {
        id: "b1".into(),
        segmentation_id: "seg1".into(),
        seq: 0,
        topic: Some("Salut".into()),
        content: "ligne1\nligne2".into(),
        sensitivity: true,
    };
    let b2 = Block {
        id: "b2".into(),
        segmentation_id: "seg1".into(),
        seq: 1,
        topic: None,
        content: "x".into(),
        sensitivity: false,
    };
    let segs = vec![(
        seg,
        vec![(b1, vec!["t1".to_string(), "t3".to_string()]), (b2, vec![])],
    )];
    let facts = vec![
        (
            fact("0123456789abcdef", 2, "note", "{\"k\":1}", Some("2026-02-02T00:00:00Z"), false),
            vec!["t2".to_string()],
        ),
        (fact("abc", 1, "recipe", "pas du json", None, true), vec![]),
    ];
    (entries, segs, facts)
}

#[test]
fn markdown_export_of_a_small_base() {
    let (entries, segs, facts) = sample();
    let md = render_markdown("NOW", &entries, &segs, &facts);
    let expected = "# AZ — export NOW\n\n\
## L0 — Transcripts (3 entrées)\n\n\
### Session `s-a` (1 entrées)\n\n\
- `2026-01-01T00:00:01Z` [voice]     salut\n\n\
### Session `s-b` (2 entrées)\n\n\
- `2026-01-01T00:00:00Z` [chat] [s] bonjour\n\
- `2026-01-01T00:00:02Z` [chat]     encore\n\n\
## L1 — Segmentations (1)\n\n\
### `seg1` — session `s-b` (model=m, prompt=v1)\n\n\
#### Bloc 0 — [s] Salut\n\n> ligne1 ligne2\n\n\
sources L0 : `t1`, `t3`\n\n\
#### Bloc 1 —     (sans topic)\n\n> x\n\n\
## L2 — Faits (2)\n\n\
### `01234567` v2 — V type=`note`     2026-02-02T00:00:00Z\n\n\
```json\n{\n  \"k\": 1\n}\n```\n\n\
sources L0 : `t2`\n\n\
### `abc` v1 — D type=`recipe` [s] (draft)\n\n\
```json\npas du json\n```\n\n";
    assert_eq!(md, expected);
}

#[test]
fn markdown_of_an_empty_base() {
    let md = render_markdown("T", &vec![], &vec![], &vec![]);
    assert_eq!(
        md,
        "# AZ — export T\n\n## L0 — Transcripts (0 entrées)\n\n## L1 — Segmentations (0)\n\n## L2 — Faits (0)\n\n"
    );
}

#[test]
fn markdown_uses_the_given_payload_texts() {
    let (entries, segs, facts) = sample();
    let pretty = vec!["P1".to_string(), "P2".to_string()];
    let md = markdown_from_parts("NOW", &entries, &segs, &facts, &pretty);
    assert!(md.contains("```json\nP1\n```"));
    assert!(md.contains("```json\nP2\n```"));
    assert!(!md.contains("\"k\": 1"));
}

#[test]
fn pretty_payload_reindents_json_and_keeps_other_text() {
    assert_eq!(pretty_payload("{\"k\":1}"), "{\n  \"k\": 1\n}");
    assert_eq!(pretty_payload("[1,2]"), "[\n  1,\n  2\n]");
    assert_eq!(pretty_payload("pas du json"), "pas du json");
}

#[test]
fn sessions_are_listed_once_in_increasing_order() {
    let entries = vec![
        entry("1", "t", "c", "chat", "zeta", true),
        entry("2", "t", "c", "chat", "alpha", true),
        entry("3", "t", "c", "chat", "zeta", true),
        entry("4", "t", "c", "chat", "al", true),
        entry("5", "t", "c", "chat", "Beta", true),
    ];
    assert_eq!(sorted_session_ids(&entries), vec!["Beta", "al", "alpha", "zeta"]);
    assert!(sorted_session_ids(&vec![]).is_empty());
}

#[test]
fn text_order_is_by_code_point_prefix_first() {
    assert!(text_lt("a", "b"));
    assert!(text_lt("al", "alpha"));
    assert!(!text_lt("alpha", "al"));
    assert!(!text_lt("x", "x"));
    assert!(text_lt("Z", "a"));
    assert!(text_lt("", "a"));
    assert!(text_lt("e", "é"));
}

#[test]
fn decimal_texts() {
    assert_eq!(nat_text(0), "0");
    assert_eq!(nat_text(1234567890), "1234567890");
    assert_eq!(nat_text(u64::MAX), u64::MAX.to_string());
    assert_eq!(int_text(-42), "-42");
    assert_eq!(int_text(0), "0");
    assert_eq!(int_text(i64::MIN), i64::MIN.to_string());
    assert_eq!(int_text(i64::MAX), i64::MAX.to_string());
}

use az::l0::{filter_entries, L0Entry};
use az::l1::{filter_blocks, Block};
use az::l2::{filter_facts, next_version_after, validated_only, Fact};
use az::session::ReadFilter;

fn entry(id: &str, sensitivity: bool) -> L0Entry {
    L0Entry {
        id: id.into(),
        timestamp: "2026-01-01T00:00:00Z".into(),
        content: "c".into(),
        source: "chat".into(),
        session_id: "S".into(),
        sensitivity,
    }
}

fn fact(id: &str, sensitivity: bool, validated: bool) -> Fact {
    Fact {
        id: id.into(),
        version: 1,
        fact_type: "note".into(),
        payload: "{\"x\":1}".into(),
        block_id: None,
        sensitivity,
        created_at: "2026-05-26T10:00:00Z".into(),
        validated_at: if validated { Some("2026-05-26T10:01:00Z".into()) } else { None },
    }
}

#[test]
fn next_version_starts_at_1() {
    assert_eq!(next_version_after(None), 1);
}

#[test]
fn next_version_increments() {
    assert_eq!(next_version_after(Some(2)), 3);
}

#[test]
fn list_session_excludes_sensitive_when_filtered() {
    let all = vec![entry("1", true), entry("2", false), entry("3", true)];
    assert_eq!(filter_entries(&all, ReadFilter::All), all);
    let safe = filter_entries(&all, ReadFilter::ExcludeSensitive);
    assert_eq!(safe.len(), 1);
    assert_eq!(safe[0].id, "2");
    assert!(!safe[0].sensitivity);
}

#[test]
fn block_filter_keeps_order() {
    let b = |id: &str, s: bool, seq: i64| Block {
        id: id.into(),
        segmentation_id: "seg".into(),
        seq,
        topic: None,
        content: "x".into(),
        sensitivity: s,
    };
    let blocks = vec![b("a", false, 0), b("b", true, 1), b("c", false, 2)];
    let kept = filter_blocks(&blocks, ReadFilter::ExcludeSensitive);
    assert_eq!(kept.iter().map(|b| b.id.as_str()).collect::<Vec<_>>(), vec!["a", "c"]);
    assert_eq!(filter_blocks(&blocks, ReadFilter::All).len(), 3);
}

#[test]
fn list_current_respects_filter() {
    let facts = vec![fact("a", true, true), fact("b", false, true)];
    assert_eq!(filter_facts(&facts, ReadFilter::All).len(), 2);
    let safe = filter_facts(&facts, ReadFilter::ExcludeSensitive);
    assert_eq!(safe.len(), 1);
    assert_eq!(safe[0].id, "b");
}

#[test]
fn validated_only_drops_drafts() {
    let facts = vec![fact("a", true, false), fact("b", true, true), fact("c", false, true)];
    let v = validated_only(&facts);
    assert_eq!(v.iter().map(|f| f.id.as_str()).collect::<Vec<_>>(), vec!["b", "c"]);
}

#[test]
fn records_clone_equal() {
    let f = fact("a", true, true);
    assert_eq!(f.clone(), f);
    let e = entry("x", false);
    assert_eq!(e.clone(), e);
}

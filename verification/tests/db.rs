use az::db::{key_pragma, migrations_from, schema_for_version, test_key, SCHEMA_V1, SCHEMA_V4, SCHEMA_V5, TARGET_VERSION};

#[test]
fn fresh_database_migrates_every_version() {
    assert_eq!(migrations_from(0), vec![1, 2, 3, 4, 5]);
    assert_eq!(migrations_from(-3), vec![1, 2, 3, 4, 5]);
}

#[test]
fn partial_database_migrates_remaining_versions() {
    assert_eq!(migrations_from(1), vec![2, 3, 4, 5]);
    assert_eq!(migrations_from(3), vec![4, 5]);
    assert_eq!(migrations_from(4), vec![5]);
}

#[test]
fn target_version_is_five() {
    assert_eq!(TARGET_VERSION, 5);
    assert_eq!(*migrations_from(0).last().unwrap(), TARGET_VERSION);
}

#[test]
fn migrated_database_needs_nothing() {
    assert!(migrations_from(TARGET_VERSION).is_empty());
    assert!(migrations_from(7).is_empty());
}

#[test]
fn schema_texts_by_version() {
    assert_eq!(schema_for_version(1), SCHEMA_V1);
    assert_eq!(schema_for_version(4), SCHEMA_V4);
    assert!(schema_for_version(2).contains("l1_blocks"));
    assert!(schema_for_version(3).contains("l2_facts_current"));
    assert_eq!(schema_for_version(5), SCHEMA_V5);
    assert!(SCHEMA_V5.contains("CREATE TABLE IF NOT EXISTS l3_links"));
    assert!(SCHEMA_V5.contains("CREATE TABLE IF NOT EXISTS l3_pages"));
}

#[test]
fn key_pragma_is_hex_literal() {
    let k = test_key();
    assert_eq!(k, [0xABu8; 32]);
    let p = key_pragma(&k);
    assert_eq!(p, format!("x'{}'", "ab".repeat(32)));
    let mut k2 = [0u8; 32];
    k2[0] = 0x0f;
    k2[31] = 0xf0;
    let p2 = key_pragma(&k2);
    assert!(p2.starts_with("x'0f00"));
    assert!(p2.ends_with("00f0'"));
    assert_eq!(p2.len(), 67);
}

#[test]
fn key_pragma_digits_are_lowercase_high_nibble_first() {
    let mut k = [0u8; 32];
    k[0] = 0x1f;
    k[1] = 0xa5;
    k[2] = 0xff;
    let p = key_pragma(&k);
    assert!(p.starts_with("x'1fa5ff00"));
}

#[test]
fn schema_scripts_create_every_table() {
    let conn = rusqlite::Connection::open_in_memory().unwrap();
    for v in migrations_from(0) {
        conn.execute_batch(schema_for_version(v)).unwrap();
    }
    conn.pragma_update(None, "user_version", TARGET_VERSION).unwrap();
    let version: i64 = conn.query_row("PRAGMA user_version", [], |r| r.get(0)).unwrap();
    assert!(version >= 5);
    for table in [
        "transcripts",
        "l1_segmentations",
        "l1_blocks",
        "l1_block_sources",
        "l2_facts",
        "l2_fact_sources",
        "embeddings",
        "l3_links",
        "l3_pages",
    ] {
        let n: i64 = conn
            .query_row(
                "SELECT count(*) FROM sqlite_master WHERE type = 'table' AND name = ?1",
                [table],
                |r| r.get(0),
            )
            .unwrap();
        assert_eq!(n, 1, "{table}");
    }
    assert!(migrations_from(version).is_empty());
    conn.execute(
        "INSERT INTO l3_links (id, src_kind, src_id, dst_kind, dst_id, rel_type, derived_by, metadata, created_at) \
         VALUES ('l', 'fact', 'f', 'page', 'p', 'rel', 'manual', NULL, 't')",
        [],
    )
    .unwrap();
    conn.execute(
        "INSERT INTO l3_pages (id, title, description, is_active, created_at, archived_at) \
         VALUES ('p1', 'A', NULL, 1, 't', NULL)",
        [],
    )
    .unwrap();
    let second_active = conn.execute(
        "INSERT INTO l3_pages (id, title, description, is_active, created_at, archived_at) \
         VALUES ('p2', 'B', NULL, 1, 't', NULL)",
        [],
    );
    assert!(second_active.is_err());
}

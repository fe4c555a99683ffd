//! The encrypted database: its errors, schema versions, and the key pragma.
use vstd::prelude::*;
use crate::filter::kept;
use crate::hex::{hex_encode, hex_lower};

verus! {

/// `std::io::Error`, carried through errors of this crate.
#[verifier::external_type_specification]
#[verifier::external_body]
pub struct ExIoError(std::io::Error);

/// `rusqlite::Error`, carried through errors of this crate.
#[verifier::external_type_specification]
#[verifier::external_body]
pub struct ExSqliteError(rusqlite::Error);

/// Errors of the database layer.
#[derive(Debug)]
pub enum DbError {
    Io(std::io::Error),
    Sqlite(rusqlite::Error),
    /// Wrong password or corrupted database: the first read failed.
    WrongKey,
}

/// Schema version 1: transcripts and their full-text index.
pub const SCHEMA_V1: &'static str = "
CREATE TABLE IF NOT EXISTS transcripts (
    id          TEXT PRIMARY KEY,
    timestamp   TEXT NOT NULL,
    content     TEXT NOT NULL,
    source      TEXT NOT NULL,
    session_id  TEXT NOT NULL,
    sensitivity INTEGER NOT NULL CHECK (sensitivity IN (0, 1))
);

CREATE INDEX IF NOT EXISTS idx_transcripts_session   ON transcripts(session_id);
CREATE INDEX IF NOT EXISTS idx_transcripts_timestamp ON transcripts(timestamp);

CREATE VIRTUAL TABLE IF NOT EXISTS transcripts_fts USING fts5(
    content,
    content='transcripts',
    content_rowid='rowid',
    tokenize='unicode61 remove_diacritics 2'
);

CREATE TRIGGER IF NOT EXISTS transcripts_ai
AFTER INSERT ON transcripts BEGIN
    INSERT INTO transcripts_fts(rowid, content) VALUES (new.rowid, new.content);
END;
";

/// Schema version 2: segmentations, blocks and block sources.
pub const SCHEMA_V2: &'static str = "
CREATE TABLE IF NOT EXISTS l1_segmentations (
    id              TEXT PRIMARY KEY,
    created_at      TEXT NOT NULL,
    session_id      TEXT NOT NULL,
    model           TEXT NOT NULL,
    prompt_version  TEXT NOT NULL,
    notes           TEXT
);
CREATE INDEX IF NOT EXISTS idx_l1_segmentations_session ON l1_segmentations(session_id);

CREATE TABLE IF NOT EXISTS l1_blocks (
    id              TEXT PRIMARY KEY,
    segmentation_id TEXT NOT NULL REFERENCES l1_segmentations(id) ON DELETE CASCADE,
    seq             INTEGER NOT NULL,
    topic           TEXT,
    content         TEXT NOT NULL,
    sensitivity     INTEGER NOT NULL CHECK (sensitivity IN (0,1))
);
CREATE INDEX IF NOT EXISTS idx_l1_blocks_segmentation ON l1_blocks(segmentation_id);

CREATE TABLE IF NOT EXISTS l1_block_sources (
    block_id        TEXT NOT NULL REFERENCES l1_blocks(id) ON DELETE CASCADE,
    transcript_id   TEXT NOT NULL REFERENCES transcripts(id),
    PRIMARY KEY (block_id, transcript_id)
);
";

/// Schema version 3: versioned facts, their sources, the current-version view.
pub const SCHEMA_V3: &'static str = "
CREATE TABLE IF NOT EXISTS l2_facts (
    id            TEXT NOT NULL,
    version       INTEGER NOT NULL,
    fact_type     TEXT NOT NULL,
    payload       TEXT NOT NULL,
    block_id      TEXT REFERENCES l1_blocks(id),
    sensitivity   INTEGER NOT NULL CHECK (sensitivity IN (0,1)),
    created_at    TEXT NOT NULL,
    validated_at  TEXT,
    PRIMARY KEY (id, version)
);
CREATE INDEX IF NOT EXISTS idx_l2_facts_type      ON l2_facts(fact_type);
CREATE INDEX IF NOT EXISTS idx_l2_facts_block     ON l2_facts(block_id);
CREATE INDEX IF NOT EXISTS idx_l2_facts_validated ON l2_facts(validated_at);

CREATE TABLE IF NOT EXISTS l2_fact_sources (
    fact_id        TEXT NOT NULL,
    version        INTEGER NOT NULL,
    transcript_id  TEXT NOT NULL REFERENCES transcripts(id),
    PRIMARY KEY (fact_id, version, transcript_id),
    FOREIGN KEY (fact_id, version) REFERENCES l2_facts(id, version) ON DELETE CASCADE
);

CREATE VIEW IF NOT EXISTS l2_facts_current AS
SELECT * FROM l2_facts f
WHERE version = (SELECT MAX(version) FROM l2_facts WHERE id = f.id);
";

/// Schema version 4: embedding vectors.
pub const SCHEMA_V4: &'static str = "
CREATE TABLE IF NOT EXISTS embeddings (
    target_type  TEXT NOT NULL,
    target_id    TEXT NOT NULL,
    model        TEXT NOT NULL,
    dim          INTEGER NOT NULL,
    vector       BLOB NOT NULL,
    created_at   TEXT NOT NULL,
    PRIMARY KEY (target_type, target_id, model)
);
CREATE INDEX IF NOT EXISTS idx_embeddings_type  ON embeddings(target_type);
CREATE INDEX IF NOT EXISTS idx_embeddings_model ON embeddings(model);
";

/// Schema version 5: pages (at most one active) and links between items.
pub const SCHEMA_V5: &'static str = "
CREATE TABLE IF NOT EXISTS l3_pages (
    id           TEXT PRIMARY KEY,
    title        TEXT NOT NULL,
    description  TEXT,
    is_active    INTEGER NOT NULL DEFAULT 0 CHECK (is_active IN (0,1)),
    created_at   TEXT NOT NULL,
    archived_at  TEXT
);
CREATE UNIQUE INDEX IF NOT EXISTS idx_l3_pages_single_active ON l3_pages(is_active) WHERE is_active = 1;

CREATE TABLE IF NOT EXISTS l3_links (
    id          TEXT PRIMARY KEY,
    src_kind    TEXT NOT NULL,
    src_id      TEXT NOT NULL,
    dst_kind    TEXT NOT NULL,
    dst_id      TEXT NOT NULL,
    rel_type    TEXT NOT NULL,
    derived_by  TEXT NOT NULL,
    metadata    TEXT,
    created_at  TEXT NOT NULL
);
CREATE INDEX IF NOT EXISTS idx_l3_links_src ON l3_links(src_kind, src_id);
CREATE INDEX IF NOT EXISTS idx_l3_links_dst ON l3_links(dst_kind, dst_id);
CREATE INDEX IF NOT EXISTS idx_l3_links_derived ON l3_links(src_kind, src_id, rel_type, derived_by);
";

/// The schema version a migrated database reaches.
pub const TARGET_VERSION: i64 = 5;

/// Every schema version, in order.
pub open spec fn all_versions() -> Seq<i64> {
    seq![1i64, 2i64, 3i64, 4i64, 5i64]
}

/// The schema versions still to apply to a database at `current`, in order.
pub open spec fn pending_versions(current: i64) -> Seq<i64> {
    kept(all_versions(), |v: i64| current < v)
}

/// The schema script of a version.
pub open spec fn schema_text(version: i64) -> Seq<char> {
    if version == 1 {
        SCHEMA_V1@
    } else if version == 2 {
        SCHEMA_V2@
    } else if version == 3 {
        SCHEMA_V3@
    } else if version == 4 {
        SCHEMA_V4@
    } else {
        SCHEMA_V5@
    }
}

/// The schema versions to apply, in increasing order, to a database whose
/// `user_version` is `current`: every version above `current`.
pub fn migrations_from(current: i64) -> (r: Vec<i64>)
    ensures
        r@ == pending_versions(current),
        forall|i: int| 0 <= i < r@.len() ==> current < #[trigger] r@[i] <= TARGET_VERSION,
        current < TARGET_VERSION ==> r@.len() > 0 && r@.last() == TARGET_VERSION,
{
    let ghost all = all_versions();
    let ghost p = |v: i64| current < v;
    let mut out: Vec<i64> = Vec::new();
    let mut v: i64 = 1;
    while v <= TARGET_VERSION
        invariant
            1 <= v <= TARGET_VERSION + 1,
            all == all_versions(),
            v > 1 && current < v - 1 ==> out@.len() > 0 && out@.last() == v - 1,
            p == (|v: i64| current < v),
            out@ == kept(all.take(v - 1), p),
            forall|i: int| 0 <= i < out@.len() ==> current < #[trigger] out@[i] < v,
        decreases TARGET_VERSION + 1 - v,
    {
        assert(all.take(v as int).drop_last() =~= all.take(v - 1));
        assert(all.take(v as int).last() == v);
        if current < v {
            out.push(v);
        }
        v = v + 1;
    }
    assert(all.take(5) =~= all);
    out
}

/// The schema script of a version between 1 and [`TARGET_VERSION`].
pub fn schema_for_version(version: i64) -> (r: &'static str)
    requires
        1 <= version <= TARGET_VERSION,
    ensures
        r@ == schema_text(version),
{
    if version == 1 {
        SCHEMA_V1
    } else if version == 2 {
        SCHEMA_V2
    } else if version == 3 {
        SCHEMA_V3
    } else if version == 4 {
        SCHEMA_V4
    } else {
        SCHEMA_V5
    }
}

/// The SQLCipher value of `PRAGMA key` / `PRAGMA rekey` for a raw key:
/// `x'<lower-case hex>'`.
pub open spec fn key_pragma_text(key: Seq<u8>) -> Seq<char> {
    "x'"@ + hex_lower(key) + "'"@
}

/// The SQLCipher value of `PRAGMA key` / `PRAGMA rekey` for a raw key.
pub fn key_pragma(key: &[u8; 32]) -> (r: String)
    ensures
        r@ == key_pragma_text(key@),
{
    let hex = hex_encode(key.as_slice());
    let mut out = String::from_str("x'");
    out.append(hex.as_str());
    out.append("'");
    out
}

/// Deterministic key for tests. Not a secret.
pub fn test_key() -> (r: [u8; 32])
    ensures
        forall|i: int| 0 <= i < 32 ==> r@[i] == 0xABu8,
        r@.len() == 32,
{
    [0xABu8; 32]
}

/// A new database (`user_version` 0) receives every schema, in order, the
/// last one (the pages and links) included.
pub proof fn lemma_fresh_database_gets_every_schema()
    ensures
        pending_versions(0) == seq![1i64, 2i64, 3i64, 4i64, 5i64],
        pending_versions(0).last() == TARGET_VERSION,
{
    reveal_with_fuel(kept, 6);
    assert(pending_versions(0) =~= seq![1i64, 2i64, 3i64, 4i64, 5i64]);
}

/// A database at the target version or above receives nothing: opening it
/// again is idempotent.
pub proof fn lemma_migrated_database_gets_nothing(current: i64)
    requires
        current >= TARGET_VERSION,
    ensures
        pending_versions(current).len() == 0,
{
    crate::filter::lemma_kept_nothing(all_versions(), |v: i64| current < v);
}

} // verus!

//! Embedding targets and the queries that load them for a search.
use vstd::prelude::*;
use crate::filter::{kept, lemma_kept_complete, lemma_kept_nothing};
use crate::session::ReadFilter;
use crate::text::{is_listed, listed};

verus! {

/// Target type of transcript embeddings.
pub const TARGET_TRANSCRIPT: &'static str = "transcript";

/// Target type of block embeddings.
pub const TARGET_BLOCK: &'static str = "block";

/// An embedded item: what it is, its id, the model, the vector's dimension.
#[derive(Debug)]
pub struct EmbeddedTarget {
    pub target_type: String,
    pub target_id: String,
    pub model: String,
    pub dim: usize,
}

/// The target types a search covers: the requested ones, or transcripts and
/// blocks when none is requested.
pub fn search_target_types(requested: &Vec<String>) -> (r: Vec<String>)
    ensures
        requested@.len() == 0 ==> r@.len() == 2 && r@[0]@ == TARGET_TRANSCRIPT@ && r@[1]@
            == TARGET_BLOCK@,
        requested@.len() > 0 ==> r@ == requested@,
{
    if requested.len() == 0 {
        let mut v: Vec<String> = Vec::new();
        v.push(String::from_str(TARGET_TRANSCRIPT));
        v.push(String::from_str(TARGET_BLOCK));
        v
    } else {
        let out = crate::text::clone_strings(requested);
        out
    }
}

/// The table that holds the content of a target type.
pub open spec fn target_table(target_type: Seq<char>) -> Option<Seq<char>> {
    if target_type == TARGET_TRANSCRIPT@ {
        Some("transcripts"@)
    } else if target_type == TARGET_BLOCK@ {
        Some("l1_blocks"@)
    } else {
        None
    }
}

/// The query loading `(target_id, content, sensitivity, vector)` of the
/// targets stored in `table` for a model, the sensitivity filter applied in
/// SQL so that filtered items are never loaded.
pub open spec fn fetch_query_text(table: Seq<char>, filter: ReadFilter) -> Seq<char> {
    "SELECT embeddings.target_id, "@ + table + ".content, "@ + table
        + ".sensitivity, embeddings.vector FROM embeddings JOIN "@ + table + " ON "@ + table
        + ".id = embeddings.target_id WHERE embeddings.target_type = ?1 AND embeddings.model = ?2"@
        + match filter {
        ReadFilter::All => Seq::<char>::empty(),
        ReadFilter::ExcludeSensitive => " AND "@ + table + ".sensitivity = 0"@,
    }
}

/// The loading query of a target type; `None` for an unknown type.
pub fn fetch_query(target_type: &str, filter: ReadFilter) -> (r: Option<String>)
    ensures
        match target_table(target_type@) {
            Some(t) => r matches Some(q) && q@ == fetch_query_text(t, filter),
            None => r is None,
        },
{
    let tt = String::from_str(target_type);
    let table = if tt == String::from_str(TARGET_TRANSCRIPT) {
        "transcripts"
    } else if tt == String::from_str(TARGET_BLOCK) {
        "l1_blocks"
    } else {
        return None;
    };
    let mut q = String::from_str("SELECT embeddings.target_id, ");
    q.append(table);
    q.append(".content, ");
    q.append(table);
    q.append(".sensitivity, embeddings.vector FROM embeddings JOIN ");
    q.append(table);
    q.append(" ON ");
    q.append(table);
    q.append(
        ".id = embeddings.target_id WHERE embeddings.target_type = ?1 AND embeddings.model = ?2",
    );
    match filter {
        ReadFilter::All => {},
        ReadFilter::ExcludeSensitive => {
            q.append(" AND ");
            q.append(table);
            q.append(".sensitivity = 0");
        },
    }
    Some(q)
}

/// The `(id, text)` candidates still to embed, in order: those whose id is
/// not among the ids already embedded (a pass is idempotent).
pub open spec fn still_to_embed(candidates: Seq<(String, String)>, existing: Seq<String>) -> Seq<
    (String, String),
> {
    kept(candidates, |c: (String, String)| !listed(existing, c.0@))
}

/// Picks, in order, the candidates not embedded yet; the others are
/// skipped (their number is `candidates.len() - r.len()`).
pub fn items_to_embed(candidates: &Vec<(String, String)>, existing: &Vec<String>) -> (r: Vec<
    (String, String),
>)
    ensures
        r@ == still_to_embed(candidates@, existing@),
{
    let ghost p = |c: (String, String)| !listed(existing@, c.0@);
    let mut out: Vec<(String, String)> = Vec::new();
    let mut i: usize = 0;
    while i < candidates.len()
        invariant
            i <= candidates@.len(),
            p == (|c: (String, String)| !listed(existing@, c.0@)),
            out@ == kept(candidates@.take(i as int), p),
        decreases candidates@.len() - i,
    {
        assert(candidates@.take(i + 1).drop_last() =~= candidates@.take(i as int));
        let c = &candidates[i];
        if !is_listed(existing, c.0.as_str()) {
            out.push((c.0.clone(), c.1.clone()));
        }
        i = i + 1;
    }
    assert(candidates@.take(candidates@.len() as int) =~= candidates@);
    out
}

/// An embedding pass is idempotent: once the ids it embedded are added to
/// the ids already embedded, a second pass over the same candidates has
/// nothing left to embed.
pub proof fn lemma_second_pass_embeds_nothing(
    candidates: Seq<(String, String)>,
    existing: Seq<String>,
    existing_next: Seq<String>,
)
    requires
        forall|x: Seq<char>| #[trigger] listed(existing, x) ==> listed(existing_next, x),
        forall|k: int|
            0 <= k < still_to_embed(candidates, existing).len() ==> listed(
                existing_next,
                (#[trigger] still_to_embed(candidates, existing)[k]).0@,
            ),
    ensures
        still_to_embed(candidates, existing_next).len() == 0,
{
    let p = |c: (String, String)| !listed(existing, c.0@);
    let q = |c: (String, String)| !listed(existing_next, c.0@);
    assert forall|i: int| 0 <= i < candidates.len() implies !q(#[trigger] candidates[i]) by {
        let c = candidates[i];
        if !listed(existing, c.0@) {
            assert(candidates.contains(c));
            lemma_kept_complete(candidates, p, c);
            let k = choose|k: int|
                0 <= k < still_to_embed(candidates, existing).len()
                    && still_to_embed(candidates, existing)[k] == c;
            assert(listed(existing_next, still_to_embed(candidates, existing)[k].0@));
        }
    }
    lemma_kept_nothing(candidates, q);
}

/// Filtering sensitive items adds exactly one condition to the query, on
/// the table the target is joined with: the query without the filter,
/// then ` AND <table>.sensitivity = 0`.
pub proof fn lemma_exclude_filters_the_joined_table(table: Seq<char>)
    ensures
        fetch_query_text(table, ReadFilter::ExcludeSensitive) == fetch_query_text(
            table,
            ReadFilter::All,
        ) + " AND "@ + table + ".sensitivity = 0"@,
        target_table(TARGET_TRANSCRIPT@) == Some("transcripts"@),
        target_table(TARGET_BLOCK@) == Some("l1_blocks"@),
{
    reveal_strlit("transcript");
    reveal_strlit("block");
    assert(TARGET_BLOCK@ != TARGET_TRANSCRIPT@) by {
        assert(TARGET_BLOCK@.len() != TARGET_TRANSCRIPT@.len());
    }
    assert(fetch_query_text(table, ReadFilter::All) + Seq::<char>::empty() =~= fetch_query_text(
        table,
        ReadFilter::All,
    ));
    assert(fetch_query_text(table, ReadFilter::ExcludeSensitive) =~= fetch_query_text(
        table,
        ReadFilter::All,
    ) + " AND "@ + table + ".sensitivity = 0"@);
}

} // verus!

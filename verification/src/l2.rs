//! L2: typed facts, drafted by the model and validated by the user; every
//! change is a new version.
use vstd::prelude::*;
use crate::filter::kept;
use crate::session::ReadFilter;
use crate::text::clone_opt_string;

verus! {

/// A fact: a draft while `validated_at` is `None`, validated otherwise.
/// `payload` is serialised JSON.
#[derive(Debug, PartialEq, Eq)]
pub struct Fact {
    pub id: String,
    pub version: i64,
    pub fact_type: String,
    pub payload: String,
    pub block_id: Option<String>,
    pub sensitivity: bool,
    pub created_at: String,
    pub validated_at: Option<String>,
}

impl Clone for Fact {
    fn clone(&self) -> (r: Self)
        ensures
            r == *self,
    {
        Fact {
            id: self.id.clone(),
            version: self.version,
            fact_type: self.fact_type.clone(),
            payload: self.payload.clone(),
            block_id: clone_opt_string(&self.block_id),
            sensitivity: self.sensitivity,
            created_at: self.created_at.clone(),
            validated_at: clone_opt_string(&self.validated_at),
        }
    }
}

/// The facts that `filter` lets through, in order.
pub open spec fn admitted_facts(facts: Seq<Fact>, filter: ReadFilter) -> Seq<Fact> {
    kept(facts, |f: Fact| filter.admits_spec(f.sensitivity))
}

/// The validated facts among `facts`, in order.
pub open spec fn validated_facts(facts: Seq<Fact>) -> Seq<Fact> {
    kept(facts, |f: Fact| f.validated_at is Some)
}

/// Applies a read filter to facts already read, keeping their order.
pub fn filter_facts(facts: &Vec<Fact>, filter: ReadFilter) -> (r: Vec<Fact>)
    ensures
        r@ == admitted_facts(facts@, filter),
{
    let mut out: Vec<Fact> = Vec::new();
    let mut i: usize = 0;
    let ghost p = |f: Fact| filter.admits_spec(f.sensitivity);
    while i < facts.len()
        invariant
            i <= facts@.len(),
            p == (|f: Fact| filter.admits_spec(f.sensitivity)),
            out@ == kept(facts@.take(i as int), p),
        decreases facts@.len() - i,
    {
        assert(facts@.take(i + 1).drop_last() =~= facts@.take(i as int));
        if filter.admits(facts[i].sensitivity) {
            out.push(facts[i].clone());
        }
        i = i + 1;
    }
    assert(facts@.take(facts@.len() as int) =~= facts@);
    out
}

/// Keeps only validated facts (those with `validated_at`), in order.
pub fn validated_only(facts: &Vec<Fact>) -> (r: Vec<Fact>)
    ensures
        r@ == validated_facts(facts@),
{
    let mut out: Vec<Fact> = Vec::new();
    let mut i: usize = 0;
    let ghost p = |f: Fact| f.validated_at is Some;
    while i < facts.len()
        invariant
            i <= facts@.len(),
            p == (|f: Fact| f.validated_at is Some),
            out@ == kept(facts@.take(i as int), p),
        decreases facts@.len() - i,
    {
        assert(facts@.take(i + 1).drop_last() =~= facts@.take(i as int));
        if facts[i].validated_at.is_some() {
            out.push(facts[i].clone());
        }
        i = i + 1;
    }
    assert(facts@.take(facts@.len() as int) =~= facts@);
    out
}

/// The version that follows the highest stored version of a fact, or 1 for
/// a fact not stored yet.
pub fn next_version_after(max_version: Option<i64>) -> (r: i64)
    requires
        max_version != Some(i64::MAX),
    ensures
        r == match max_version {
            Some(n) => n + 1,
            None => 1,
        },
{
    match max_version {
        Some(n) => n + 1,
        None => 1,
    }
}

} // verus!

//! L0: raw transcripts, immutable and append-only.
use vstd::prelude::*;
use crate::filter::{kept, lemma_kept_complete, lemma_kept_everything, lemma_kept_members};
use crate::session::ReadFilter;

verus! {

/// One raw utterance as captured (chat, voice, import, manual).
#[derive(Debug, PartialEq, Eq)]
pub struct L0Entry {
    pub id: String,
    pub timestamp: String,
    pub content: String,
    pub source: String,
    pub session_id: String,
    pub sensitivity: bool,
}

impl Clone for L0Entry {
    fn clone(&self) -> (r: Self)
        ensures
            r == *self,
    {
        L0Entry {
            id: self.id.clone(),
            timestamp: self.timestamp.clone(),
            content: self.content.clone(),
            source: self.source.clone(),
            session_id: self.session_id.clone(),
            sensitivity: self.sensitivity,
        }
    }
}

/// The transcripts of `entries` that `filter` lets through, in order.
pub open spec fn admitted_entries(entries: Seq<L0Entry>, filter: ReadFilter) -> Seq<L0Entry> {
    kept(entries, |e: L0Entry| filter.admits_spec(e.sensitivity))
}

/// Applies a read filter to transcripts already read: with
/// `ExcludeSensitive` every sensitive entry is dropped, order is kept.
pub fn filter_entries(entries: &Vec<L0Entry>, filter: ReadFilter) -> (r: Vec<L0Entry>)
    ensures
        r@ == admitted_entries(entries@, filter),
{
    let mut out: Vec<L0Entry> = Vec::new();
    let mut i: usize = 0;
    let ghost p = |e: L0Entry| filter.admits_spec(e.sensitivity);
    while i < entries.len()
        invariant
            i <= entries@.len(),
            p == (|e: L0Entry| filter.admits_spec(e.sensitivity)),
            out@ == kept(entries@.take(i as int), p),
        decreases entries@.len() - i,
    {
        assert(entries@.take(i + 1).drop_last() =~= entries@.take(i as int));
        if filter.admits(entries[i].sensitivity) {
            out.push(entries[i].clone());
        }
        i = i + 1;
    }
    assert(entries@.take(entries@.len() as int) =~= entries@);
    out
}

/// The `All` filter keeps every transcript, in order.
pub proof fn lemma_all_keeps_every_entry(entries: Seq<L0Entry>)
    ensures
        admitted_entries(entries, ReadFilter::All) == entries,
{
    lemma_kept_everything(entries, |e: L0Entry| ReadFilter::All.admits_spec(e.sensitivity));
}

/// The `ExcludeSensitive` filter keeps exactly the non-sensitive
/// transcripts: none of what it keeps is sensitive, and every non-sensitive
/// transcript is kept.
pub proof fn lemma_exclude_sensitive_keeps_exactly_safe_entries(entries: Seq<L0Entry>)
    ensures
        forall|i: int|
            0 <= i < admitted_entries(entries, ReadFilter::ExcludeSensitive).len() ==> !(
            #[trigger] admitted_entries(entries, ReadFilter::ExcludeSensitive)[i]).sensitivity,
        forall|e: L0Entry|
            entries.contains(e) && !e.sensitivity ==> #[trigger] admitted_entries(
                entries,
                ReadFilter::ExcludeSensitive,
            ).contains(e),
{
    let p = |e: L0Entry| ReadFilter::ExcludeSensitive.admits_spec(e.sensitivity);
    lemma_kept_members(entries, p);
    assert forall|e: L0Entry| entries.contains(e) && !e.sensitivity implies #[trigger] admitted_entries(
        entries,
        ReadFilter::ExcludeSensitive,
    ).contains(e) by {
        lemma_kept_complete(entries, p, e);
    }
}

} // verus!

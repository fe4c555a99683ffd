//! L1: thematic blocks, a versioned segmentation of L0 transcripts.
use vstd::prelude::*;
use crate::filter::kept;
use crate::session::ReadFilter;
use crate::text::clone_opt_string;

verus! {

/// One segmentation run over a session (several may coexist per session).
#[derive(Debug, PartialEq, Eq)]
pub struct Segmentation {
    pub id: String,
    pub created_at: String,
    pub session_id: String,
    pub model: String,
    pub prompt_version: String,
    pub notes: Option<String>,
}

/// One thematic block of a segmentation.
#[derive(Debug, PartialEq, Eq)]
pub struct Block {
    pub id: String,
    pub segmentation_id: String,
    pub seq: i64,
    pub topic: Option<String>,
    pub content: String,
    pub sensitivity: bool,
}

impl Clone for Segmentation {
    fn clone(&self) -> (r: Self)
        ensures
            r == *self,
    {
        Segmentation {
            id: self.id.clone(),
            created_at: self.created_at.clone(),
            session_id: self.session_id.clone(),
            model: self.model.clone(),
            prompt_version: self.prompt_version.clone(),
            notes: clone_opt_string(&self.notes),
        }
    }
}

impl Clone for Block {
    fn clone(&self) -> (r: Self)
        ensures
            r == *self,
    {
        Block {
            id: self.id.clone(),
            segmentation_id: self.segmentation_id.clone(),
            seq: self.seq,
            topic: clone_opt_string(&self.topic),
            content: self.content.clone(),
            sensitivity: self.sensitivity,
        }
    }
}

/// The blocks of `blocks` that `filter` lets through, in order.
pub open spec fn admitted_blocks(blocks: Seq<Block>, filter: ReadFilter) -> Seq<Block> {
    kept(blocks, |b: Block| filter.admits_spec(b.sensitivity))
}

/// Applies a read filter to blocks already read, keeping their order.
pub fn filter_blocks(blocks: &Vec<Block>, filter: ReadFilter) -> (r: Vec<Block>)
    ensures
        r@ == admitted_blocks(blocks@, filter),
{
    let mut out: Vec<Block> = Vec::new();
    let mut i: usize = 0;
    let ghost p = |b: Block| filter.admits_spec(b.sensitivity);
    while i < blocks.len()
        invariant
            i <= blocks@.len(),
            p == (|b: Block| filter.admits_spec(b.sensitivity)),
            out@ == kept(blocks@.take(i as int), p),
        decreases blocks@.len() - i,
    {
        assert(blocks@.take(i + 1).drop_last() =~= blocks@.take(i as int));
        if filter.admits(blocks[i].sensitivity) {
            out.push(blocks[i].clone());
        }
        i = i + 1;
    }
    assert(blocks@.take(blocks@.len() as int) =~= blocks@);
    out
}

} // verus!

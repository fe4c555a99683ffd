//! Segmentation of a session's transcripts (L0) into thematic blocks (L1)
//! by the language model.
use vstd::prelude::*;
use crate::db::DbError;

use crate::json::{json_array, json_array_text, json_string, push_json_string, texts};
use crate::l0::{
    admitted_entries, filter_entries, lemma_all_keeps_every_entry,
    lemma_exclude_sensitive_keeps_exactly_safe_entries, L0Entry,
};
use crate::l1::{Block, Segmentation};
use crate::llm::LlmError;
use crate::session::{mode_filter, SessionMode};
use crate::stamp::{new_id, now_rfc3339, rfc3339_utc_shape, uuid_v4_shape};

verus! {

/// Version of the segmentation prompt, recorded with each segmentation.
pub const PROMPT_VERSION: &'static str = "v1";

/// System prompt of the segmentation.
pub const PROMPT_V1_SYSTEM: &'static str = "Tu es un assistant qui segmente des transcripts en blocs thématiques cohérents.

Pour chaque bloc :
- identifie un sujet court (topic, ≤ 60 caractères) ;
- liste les `id` des transcripts qui le composent dans l'ordre chronologique ;
- écris un `content` paraphrasé propre, en français, fidèle aux sources.

Réponds UNIQUEMENT avec un JSON conforme au schéma :
{\"blocks\":[{\"topic\":string,\"transcript_ids\":[string,...],\"content\":string},...]}

Sources fournies dans le prochain message sous forme JSON : [{\"id\":string,\"timestamp\":string,\"content\":string},...].";

/// Errors of a segmentation run.
#[derive(Debug)]
pub enum SegmentError {
    EmptySession(String),
    Llm(LlmError),
    Parse(String),
    Db(DbError),
    Time(String),
}

/// One block as proposed by the model.
#[derive(Debug)]
pub struct LlmBlock {
    pub topic: String,
    pub transcript_ids: Vec<String>,
    pub content: String,
}

/// The JSON object of one transcript in the segmentation prompt.
pub open spec fn transcript_item_text(e: L0Entry) -> Seq<char> {
    "{\"id\":"@ + json_string(e.id@) + ",\"timestamp\":"@ + json_string(e.timestamp@)
        + ",\"content\":"@ + json_string(e.content@) + "}"@
}

/// The user prompt of a segmentation: the JSON array of the transcripts.
pub open spec fn segmentation_prompt_text(entries: Seq<L0Entry>) -> Seq<char> {
    json_array_text(entries.map_values(|e: L0Entry| transcript_item_text(e)))
}

fn transcript_item(e: &L0Entry) -> (r: String)
    ensures
        r@ == transcript_item_text(*e),
{
    let mut out = String::from_str("{\"id\":");
    push_json_string(&mut out, e.id.as_str());
    out.append(",\"timestamp\":");
    push_json_string(&mut out, e.timestamp.as_str());
    out.append(",\"content\":");
    push_json_string(&mut out, e.content.as_str());
    out.append("}");
    out
}

/// The JSON array of the given transcripts, in order.
pub fn transcripts_json(entries: &Vec<L0Entry>) -> (r: String)
    ensures
        r@ == segmentation_prompt_text(entries@),
{
    let ghost items = entries@.map_values(|e: L0Entry| transcript_item_text(e));
    let mut parts: Vec<String> = Vec::new();
    let mut i: usize = 0;
    while i < entries.len()
        invariant
            i <= entries@.len(),
            items == entries@.map_values(|e: L0Entry| transcript_item_text(e)),
            texts(parts@) == items.take(i as int),
            parts@.len() == i,
        decreases entries@.len() - i,
    {
        let p = transcript_item(&entries[i]);
        let ghost before = parts@;
        parts.push(p);
        i = i + 1;
        assert forall|j: int| 0 <= j < i implies texts(parts@)[j] == items.take(i as int)[j] by {
            assert(texts(parts@)[j] == parts@[j]@);
            if j < i - 1 {
                assert(parts@[j] == before[j]);
                assert(texts(before)[j] == items.take(i - 1)[j]);
            }
        }
        assert(texts(parts@) =~= items.take(i as int));
    }
    assert(items.take(entries@.len() as int) =~= items);
    json_array(&parts)
}

/// Builds the user prompt of a segmentation from the transcripts read for
/// the session. The mode's read filter is applied to them: in `Connected`
/// mode no sensitive transcript enters the prompt. With no transcript left
/// the session is refused as empty.
pub fn segmentation_prompt(session_id: &str, transcripts: &Vec<L0Entry>, mode: SessionMode) -> (r:
    Result<String, SegmentError>)
    ensures
        admitted_entries(transcripts@, mode_filter(mode)).len() == 0 ==> (r matches Err(
            SegmentError::EmptySession(s),
        ) && s@ == session_id@),
        admitted_entries(transcripts@, mode_filter(mode)).len() > 0 ==> (r matches Ok(p) && p@
            == segmentation_prompt_text(admitted_entries(transcripts@, mode_filter(mode)))),
{
    let admitted = filter_entries(transcripts, mode.read_filter());
    if admitted.len() == 0 {
        return Err(SegmentError::EmptySession(String::from_str(session_id)));
    }
    Ok(transcripts_json(&admitted))
}

/// In `Connected` mode every transcript whose record enters the
/// segmentation prompt is non-sensitive, and every non-sensitive transcript
/// of the session does enter it.
pub proof fn lemma_connected_prompt_excludes_sensitive(transcripts: Seq<L0Entry>)
    ensures
        forall|i: int|
            0 <= i < admitted_entries(transcripts, mode_filter(SessionMode::Connected)).len()
                ==> !(#[trigger] admitted_entries(
                transcripts,
                mode_filter(SessionMode::Connected),
            )[i]).sensitivity,
        forall|e: L0Entry|
            transcripts.contains(e) && !e.sensitivity ==> #[trigger] admitted_entries(
                transcripts,
                mode_filter(SessionMode::Connected),
            ).contains(e),
{
    lemma_exclude_sensitive_keeps_exactly_safe_entries(transcripts);
}

/// In `Private` mode every transcript of the session enters the prompt.
pub proof fn lemma_private_prompt_keeps_everything(transcripts: Seq<L0Entry>)
    ensures
        admitted_entries(transcripts, mode_filter(SessionMode::Private)) == transcripts,
{
    lemma_all_keeps_every_entry(transcripts);
}

/// The transcript a model-given id designates among the admitted ones: the
/// last with that id, as a map keyed by id keeps it.
pub open spec fn lookup_entry(entries: Seq<L0Entry>, id: Seq<char>) -> Option<L0Entry>
    decreases entries.len(),
{
    if entries.len() == 0 {
        None
    } else if entries.last().id@ == id {
        Some(entries.last())
    } else {
        lookup_entry(entries.drop_last(), id)
    }
}

/// Whether some id of `ids` designates an admitted transcript.
pub open spec fn any_known(entries: Seq<L0Entry>, ids: Seq<String>) -> bool
    decreases ids.len(),
{
    ids.len() > 0 && (lookup_entry(entries, ids.last()@) is Some || any_known(
        entries,
        ids.drop_last(),
    ))
}

/// Whether some id of `ids` designates a sensitive admitted transcript.
pub open spec fn any_sensitive(entries: Seq<L0Entry>, ids: Seq<String>) -> bool
    decreases ids.len(),
{
    ids.len() > 0 && ((lookup_entry(entries, ids.last()@) matches Some(e) && e.sensitivity)
        || any_sensitive(entries, ids.drop_last()))
}

/// The sensitivity a block inherits: the OR of its known sources, and
/// `true` when none of its ids designates a known transcript.
pub open spec fn inherited_sensitivity(entries: Seq<L0Entry>, ids: Seq<String>) -> bool {
    !any_known(entries, ids) || any_sensitive(entries, ids)
}

/// The `(block, transcript)` source pairs of a block: its ids that designate
/// an admitted transcript, in the model's order; unknown ids are dropped.
pub open spec fn block_source_pairs(block_id: String, entries: Seq<L0Entry>, ids: Seq<String>) -> Seq<
    (String, String),
>
    decreases ids.len(),
{
    if ids.len() == 0 {
        Seq::empty()
    } else if lookup_entry(entries, ids.last()@) is Some {
        block_source_pairs(block_id, entries, ids.drop_last()).push((block_id, ids.last()))
    } else {
        block_source_pairs(block_id, entries, ids.drop_last())
    }
}

/// The source pairs of the first `n` blocks, block after block.
pub open spec fn sources_upto(
    blocks: Seq<Block>,
    llm: Seq<LlmBlock>,
    entries: Seq<L0Entry>,
    n: nat,
) -> Seq<(String, String)>
    decreases n,
{
    if n == 0 {
        Seq::empty()
    } else {
        sources_upto(blocks, llm, entries, (n - 1) as nat) + block_source_pairs(
            blocks[n - 1].id,
            entries,
            llm[n - 1].transcript_ids@,
        )
    }
}

/// Every source pair of a block names that block and a transcript the
/// model's id designates among the admitted ones: hallucinated ids never
/// become sources.
pub proof fn lemma_block_sources_are_known(
    block_id: String,
    entries: Seq<L0Entry>,
    ids: Seq<String>,
)
    ensures
        forall|k: int|
            0 <= k < block_source_pairs(block_id, entries, ids).len() ==> {
                let pair = #[trigger] block_source_pairs(block_id, entries, ids)[k];
                &&& pair.0 == block_id
                &&& lookup_entry(entries, pair.1@) is Some
                &&& ids.contains(pair.1)
            },
    decreases ids.len(),
{
    if ids.len() > 0 {
        lemma_block_sources_are_known(block_id, entries, ids.drop_last());
        let prev = block_source_pairs(block_id, entries, ids.drop_last());
        assert forall|k: int| 0 <= k < block_source_pairs(block_id, entries, ids).len() implies {
            let pair = #[trigger] block_source_pairs(block_id, entries, ids)[k];
            &&& pair.0 == block_id
            &&& lookup_entry(entries, pair.1@) is Some
            &&& ids.contains(pair.1)
        } by {
            if k < prev.len() {
                let pair = prev[k];
                let j = choose|j: int| 0 <= j < ids.drop_last().len() && ids.drop_last()[j] == pair.1;
                assert(ids[j] == pair.1);
            } else {
                assert(ids[ids.len() - 1] == ids.last());
            }
        }
    }
}

/// What a planned block holds, given its position and the model's block.
pub open spec fn block_planned(
    b: Block,
    segmentation_id: String,
    i: int,
    lb: LlmBlock,
    entries: Seq<L0Entry>,
) -> bool {
    &&& uuid_v4_shape(b.id@)
    &&& b.segmentation_id == segmentation_id
    &&& b.seq == i
    &&& b.topic == Some(lb.topic)
    &&& b.content == lb.content
    &&& b.sensitivity == inherited_sensitivity(entries, lb.transcript_ids@)
}

/// A segmentation ready to be recorded: its row, its blocks in order, and
/// the `(block id, transcript id)` source pairs.
#[derive(Debug)]
pub struct SegmentationPlan {
    pub segmentation: Segmentation,
    pub blocks: Vec<Block>,
    pub sources: Vec<(String, String)>,
}

/// Index of the transcript an id designates (the last with that id).
fn find_entry(entries: &Vec<L0Entry>, id: &String) -> (r: Option<usize>)
    ensures
        match r {
            Some(k) => k < entries@.len() && lookup_entry(entries@, id@) == Some(entries@[k as int]),
            None => lookup_entry(entries@, id@) is None,
        },
{
    let mut k = entries.len();
    assert(entries@.take(k as int) =~= entries@);
    while k > 0
        invariant
            k <= entries@.len(),
            lookup_entry(entries@, id@) == lookup_entry(entries@.take(k as int), id@),
        decreases k,
    {
        assert(entries@.take(k as int).last() == entries@[k - 1]);
        if entries[k - 1].id == *id {
            return Some(k - 1);
        }
        assert(entries@.take(k as int).drop_last() =~= entries@.take(k - 1));
        k = k - 1;
    }
    None
}

/// What a planned segmentation holds, apart from its time: a fresh UUID,
/// the session, model and prompt version, no notes, one block per block of
/// the model (see `block_planned`), and the source pairs of the blocks.
pub open spec fn plan_holds(
    p: SegmentationPlan,
    session_id: Seq<char>,
    model: Seq<char>,
    transcripts: Seq<L0Entry>,
    mode: SessionMode,
    llm_blocks: Seq<LlmBlock>,
) -> bool {
    let admitted = admitted_entries(transcripts, mode_filter(mode));
    &&& uuid_v4_shape(p.segmentation.id@)
    &&& p.segmentation.session_id@ == session_id
    &&& p.segmentation.model@ == model
    &&& p.segmentation.prompt_version@ == PROMPT_VERSION@
    &&& p.segmentation.notes is None
    &&& p.blocks@.len() == llm_blocks.len()
    &&& forall|i: int|
        0 <= i < llm_blocks.len() ==> block_planned(
            #[trigger] p.blocks@[i],
            p.segmentation.id,
            i,
            llm_blocks[i],
            admitted,
        )
    &&& p.sources@ == sources_upto(p.blocks@, llm_blocks, admitted, llm_blocks.len())
}

/// Turns the model's blocks into blocks to record. The mode's read filter is
/// applied to the transcripts first; each block gets a fresh id, its
/// position as `seq`, the model's topic and content, and the sensitivity it
/// inherits from its known sources (`true` when none is known). Ids that
/// designate no admitted transcript are dropped from the sources. The only
/// failure is reading the clock.
pub fn plan_segmentation(
    session_id: &str,
    model: &str,
    transcripts: &Vec<L0Entry>,
    mode: SessionMode,
    llm_blocks: &Vec<LlmBlock>,
) -> (r: Result<SegmentationPlan, SegmentError>)
    requires
        llm_blocks@.len() <= i64::MAX,
    ensures
        r is Err ==> r matches Err(SegmentError::Time(_)),
        r matches Ok(p) ==> plan_holds(p, session_id@, model@, transcripts@, mode, llm_blocks@)
            && rfc3339_utc_shape(p.segmentation.created_at@),
{
    let created_at = match now_rfc3339() {
        Ok(t) => t,
        Err(e) => {
            return Err(SegmentError::Time(e));
        },
    };
    Ok(plan_segmentation_at(session_id, model, transcripts, mode, llm_blocks, created_at))
}

/// The plan of a segmentation made at `created_at` (see
/// [`plan_segmentation`], which reads the clock for it).
pub fn plan_segmentation_at(
    session_id: &str,
    model: &str,
    transcripts: &Vec<L0Entry>,
    mode: SessionMode,
    llm_blocks: &Vec<LlmBlock>,
    created_at: String,
) -> (p: SegmentationPlan)
    requires
        llm_blocks@.len() <= i64::MAX,
    ensures
        plan_holds(p, session_id@, model@, transcripts@, mode, llm_blocks@),
        p.segmentation.created_at == created_at,
{
    let admitted = filter_entries(transcripts, mode.read_filter());
    let segmentation_id = new_id();
    let segmentation = Segmentation {
        id: segmentation_id.clone(),
        created_at,
        session_id: String::from_str(session_id),
        model: String::from_str(model),
        prompt_version: String::from_str(PROMPT_VERSION),
        notes: None,
    };
    let mut blocks: Vec<Block> = Vec::new();
    let mut sources: Vec<(String, String)> = Vec::new();
    let mut i: usize = 0;
    while i < llm_blocks.len()
        invariant
            i <= llm_blocks@.len() <= i64::MAX,
            admitted@ == admitted_entries(transcripts@, mode_filter(mode)),
            blocks@.len() == i,
            forall|j: int|
                0 <= j < i ==> block_planned(
                    #[trigger] blocks@[j],
                    segmentation_id,
                    j,
                    llm_blocks@[j],
                    admitted@,
                ),
            sources@ == sources_upto(blocks@, llm_blocks@, admitted@, i as nat),
        decreases llm_blocks@.len() - i,
    {
        let lb = &llm_blocks[i];
        let block_id = new_id();
        let ids = &lb.transcript_ids;
        let ghost sources_before = sources@;
        let mut known = false;
        let mut sensitive = false;
        let mut j: usize = 0;
        while j < ids.len()
            invariant
                j <= ids@.len(),
                ids@ == llm_blocks@[i as int].transcript_ids@,
                known == any_known(admitted@, ids@.take(j as int)),
                sensitive == any_sensitive(admitted@, ids@.take(j as int)),
                sources@ == sources_before + block_source_pairs(
                    block_id,
                    admitted@,
                    ids@.take(j as int),
                ),
            decreases ids@.len() - j,
        {
            assert(ids@.take(j + 1).drop_last() =~= ids@.take(j as int));
            assert(ids@.take(j + 1).last() == ids@[j as int]);
            match find_entry(&admitted, &ids[j]) {
                Some(k) => {
                    known = true;
                    if admitted[k].sensitivity {
                        sensitive = true;
                    }
                    sources.push((block_id.clone(), ids[j].clone()));
                },
                None => {},
            }
            j = j + 1;
        }
        assert(ids@.take(ids@.len() as int) =~= ids@);
        let sensitivity = if !known {
            true
        } else {
            sensitive
        };
        let block = Block {
            id: block_id,
            segmentation_id: segmentation_id.clone(),
            seq: i as i64,
            topic: Some(lb.topic.clone()),
            content: lb.content.clone(),
            sensitivity,
        };
        let ghost blocks_before = blocks@;
        blocks.push(block);
        assert forall|j: int| 0 <= j < i + 1 implies block_planned(
            #[trigger] blocks@[j],
            segmentation_id,
            j,
            llm_blocks@[j],
            admitted@,
        ) by {
            if j < i {
                assert(blocks@[j] == blocks_before[j]);
            }
        }
        assert forall|n: nat| n <= i implies sources_upto(blocks@, llm_blocks@, admitted@, n)
            == sources_upto(blocks_before, llm_blocks@, admitted@, n) by {
            lemma_sources_upto_prefix(blocks_before, blocks@, llm_blocks@, admitted@, n);
        }
        i = i + 1;
    }
    SegmentationPlan { segmentation, blocks, sources }
}

proof fn lemma_sources_upto_prefix(
    b1: Seq<Block>,
    b2: Seq<Block>,
    llm: Seq<LlmBlock>,
    entries: Seq<L0Entry>,
    n: nat,
)
    requires
        n <= b1.len() <= b2.len(),
        forall|j: int| 0 <= j < b1.len() ==> b1[j] == b2[j],
    ensures
        sources_upto(b2, llm, entries, n) == sources_upto(b1, llm, entries, n),
    decreases n,
{
    if n > 0 {
        lemma_sources_upto_prefix(b1, b2, llm, entries, (n - 1) as nat);
    }
}

} // verus!

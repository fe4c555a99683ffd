//! Extraction of typed fact drafts (L2) from a segmentation's blocks (L1)
//! by the language model.
use vstd::prelude::*;
use crate::db::DbError;
use crate::filter::{kept, lemma_kept_complete, lemma_kept_members};
use crate::json::{
    json_array, json_array_text, json_string, json_string_array, push_json_string,
    push_json_string_array, texts,
};
use crate::l1::Block;
use crate::l2::Fact;
use crate::llm::LlmError;
use crate::session::{mode_filter, ReadFilter, SessionMode};
use crate::stamp::{new_id, now_rfc3339, rfc3339_utc_shape, uuid_v4_shape};
use crate::text::{clone_opt_string, clone_strings};

verus! {

/// Version of the extraction prompt.
pub const PROMPT_VERSION: &'static str = "v1";

/// System prompt of the extraction.
pub const PROMPT_V1_SYSTEM: &'static str = "Tu es un assistant qui extrait des faits typés à partir de blocs thématiques (L1).

Pour chaque fait identifie :
- `type` : un type court en string (ex: \"note\", \"event\", \"measurement\", \"transaction\", \"recipe\"). La liste est ouverte — propose des types pertinents au contenu.
- `payload` : un objet JSON décrivant le fait (champs libres, adaptés au type).
- `transcript_ids` : liste des `id` de transcripts L0 qui ont nourri le fait.
- `block_id` : id du bloc L1 d'origine (parmi les blocs fournis).
- `sensitivity` : booléen, défaut `true` (conservateur).

N'invente pas de faits qui ne sont pas dans les blocs. Pas de spéculation, pas de remplissage.
Si un bloc ne contient pas de fait actionnable, n'émets rien pour ce bloc.

Réponds UNIQUEMENT en JSON conforme :
{\"facts\":[{\"type\":string,\"payload\":object,\"transcript_ids\":[string,...],\"block_id\":string,\"sensitivity\":bool},...]}";

/// Errors of an extraction run.
#[derive(Debug)]
pub enum ExtractError {
    EmptySegmentation(String),
    Llm(LlmError),
    Parse(String),
    Db(DbError),
    Time(String),
}

/// One fact as proposed by the model; `payload` is its JSON text.
#[derive(Debug)]
pub struct LlmFact {
    pub fact_type: String,
    pub payload: String,
    pub transcript_ids: Vec<String>,
    pub block_id: Option<String>,
    pub sensitivity: bool,
}

/// Value of `sensitivity` when the model leaves it out: conservative.
pub fn default_true() -> (r: bool)
    ensures
        r,
{
    true
}

/// A block with the ids of its source transcripts.
pub type SourcedBlock = (Block, Vec<String>);

/// A block with the ids of its sources, as values.
pub open spec fn sourced_view(b: SourcedBlock) -> (Block, Seq<String>) {
    (b.0, b.1@)
}

/// The views of a sequence of sourced blocks.
pub open spec fn sourced_views(blocks: Seq<SourcedBlock>) -> Seq<(Block, Seq<String>)> {
    blocks.map_values(|b: SourcedBlock| sourced_view(b))
}

/// The blocks that `filter` lets through, with their sources, in order.
pub open spec fn admitted_sourced(blocks: Seq<SourcedBlock>, filter: ReadFilter) -> Seq<
    (Block, Seq<String>),
> {
    kept(sourced_views(blocks), |b: (Block, Seq<String>)| filter.admits_spec(b.0.sensitivity))
}

/// JSON text of an optional string: the string, or `null`.
pub open spec fn json_opt_string(o: Option<String>) -> Seq<char> {
    match o {
        Some(s) => json_string(s@),
        None => "null"@,
    }
}

/// The JSON object of one block in the extraction prompt.
pub open spec fn block_item_text(b: (Block, Seq<String>)) -> Seq<char> {
    "{\"block_id\":"@ + json_string(b.0.id@) + ",\"topic\":"@ + json_opt_string(b.0.topic)
        + ",\"content\":"@ + json_string(b.0.content@) + ",\"transcript_ids\":"@
        + json_string_array(b.1) + "}"@
}

/// The user prompt of an extraction: the JSON array of the blocks.
pub open spec fn extraction_prompt_text(blocks: Seq<(Block, Seq<String>)>) -> Seq<char> {
    json_array_text(blocks.map_values(|b: (Block, Seq<String>)| block_item_text(b)))
}

fn block_item(b: &SourcedBlock) -> (r: String)
    ensures
        r@ == block_item_text(sourced_view(*b)),
{
    let mut out = String::from_str("{\"block_id\":");
    push_json_string(&mut out, b.0.id.as_str());
    out.append(",\"topic\":");
    match &b.0.topic {
        Some(t) => push_json_string(&mut out, t.as_str()),
        None => out.append("null"),
    }
    out.append(",\"content\":");
    push_json_string(&mut out, b.0.content.as_str());
    out.append(",\"transcript_ids\":");
    push_json_string_array(&mut out, &b.1);
    out.append("}");
    out
}

/// Keeps the blocks the filter admits, with their sources.
fn filter_sourced(blocks: &Vec<SourcedBlock>, filter: ReadFilter) -> (r: Vec<SourcedBlock>)
    ensures
        sourced_views(r@) == admitted_sourced(blocks@, filter),
{
    let mut out: Vec<SourcedBlock> = Vec::new();
    let mut i: usize = 0;
    let ghost views = sourced_views(blocks@);
    let ghost p = |b: (Block, Seq<String>)| filter.admits_spec(b.0.sensitivity);
    while i < blocks.len()
        invariant
            i <= blocks@.len(),
            views == sourced_views(blocks@),
            p == (|b: (Block, Seq<String>)| filter.admits_spec(b.0.sensitivity)),
            sourced_views(out@) == kept(views.take(i as int), p),
        decreases blocks@.len() - i,
    {
        assert(views.take(i + 1).drop_last() =~= views.take(i as int));
        assert(views.take(i + 1).last() == sourced_view(blocks@[i as int]));
        if filter.admits(blocks[i].0.sensitivity) {
            let b = blocks[i].0.clone();
            let s = clone_strings(&blocks[i].1);
            let ghost before = out@;
            out.push((b, s));
            assert(sourced_views(out@) =~= sourced_views(before).push(sourced_view((b, s))));
        }
        i = i + 1;
    }
    assert(views.take(blocks@.len() as int) =~= views);
    out
}

/// Builds the user prompt of an extraction from a segmentation's blocks and
/// their sources. The mode's read filter is applied: in `Connected` mode no
/// sensitive block enters the prompt. With no block left the segmentation is
/// refused as empty.
pub fn extraction_prompt(
    segmentation_id: &str,
    blocks: &Vec<SourcedBlock>,
    mode: SessionMode,
) -> (r: Result<String, ExtractError>)
    ensures
        admitted_sourced(blocks@, mode_filter(mode)).len() == 0 ==> (r matches Err(
            ExtractError::EmptySegmentation(s),
        ) && s@ == segmentation_id@),
        admitted_sourced(blocks@, mode_filter(mode)).len() > 0 ==> (r matches Ok(p) && p@
            == extraction_prompt_text(admitted_sourced(blocks@, mode_filter(mode)))),
{
    let admitted = filter_sourced(blocks, mode.read_filter());
    if admitted.len() == 0 {
        return Err(ExtractError::EmptySegmentation(String::from_str(segmentation_id)));
    }
    let ghost items = sourced_views(admitted@).map_values(
        |b: (Block, Seq<String>)| block_item_text(b),
    );
    let mut parts: Vec<String> = Vec::new();
    let mut i: usize = 0;
    while i < admitted.len()
        invariant
            i <= admitted@.len(),
            items == sourced_views(admitted@).map_values(
                |b: (Block, Seq<String>)| block_item_text(b),
            ),
            texts(parts@) == items.take(i as int),
            parts@.len() == i,
        decreases admitted@.len() - i,
    {
        let p = block_item(&admitted[i]);
        let ghost before = parts@;
        parts.push(p);
        i = i + 1;
        assert forall|j: int| 0 <= j < i implies texts(parts@)[j] == items.take(i as int)[j] by {
            assert(texts(parts@)[j] == parts@[j]@);
            if j < i - 1 {
                assert(parts@[j] == before[j]);
                assert(texts(before)[j] == items.take(i - 1)[j]);
            }
        }
        assert(texts(parts@) =~= items.take(i as int));
    }
    assert(items.take(admitted@.len() as int) =~= items);
    Ok(json_array(&parts))
}

/// Whether a block with this id is among the given blocks.
pub open spec fn block_known(blocks: Seq<(Block, Seq<String>)>, id: Seq<char>) -> bool {
    exists|i: int| 0 <= i < blocks.len() && #[trigger] blocks[i].0.id@ == id
}

/// Whether a proposed fact is kept: it names no block, or a known one.
pub open spec fn fact_accepted(blocks: Seq<(Block, Seq<String>)>, f: LlmFact) -> bool {
    match f.block_id {
        Some(b) => block_known(blocks, b@),
        None => true,
    }
}

/// The proposed facts that are kept, in the model's order.
pub open spec fn accepted_facts(blocks: Seq<(Block, Seq<String>)>, facts: Seq<LlmFact>) -> Seq<
    LlmFact,
> {
    kept(facts, |f: LlmFact| fact_accepted(blocks, f))
}

/// A fact draft to insert, with the ids of its source transcripts.
#[derive(Debug)]
pub struct Draft {
    pub fact: Fact,
    pub sources: Vec<String>,
}

/// What a draft holds, given the model's fact and the run's timestamp.
pub open spec fn draft_of(d: Draft, f: LlmFact, now: String) -> bool {
    &&& uuid_v4_shape(d.fact.id@)
    &&& d.fact.version == 1
    &&& d.fact.fact_type == f.fact_type
    &&& d.fact.payload == f.payload
    &&& d.fact.block_id == f.block_id
    &&& d.fact.sensitivity == f.sensitivity
    &&& d.fact.created_at == now
    &&& d.fact.validated_at is None
    &&& d.sources@ == f.transcript_ids@
}

fn is_known_block(blocks: &Vec<SourcedBlock>, id: &String) -> (r: bool)
    ensures
        r == block_known(sourced_views(blocks@), id@),
{
    let mut i: usize = 0;
    while i < blocks.len()
        invariant
            i <= blocks@.len(),
            forall|j: int| 0 <= j < i ==> blocks@[j].0.id@ != id@,
            sourced_views(blocks@).len() == blocks@.len(),
        decreases blocks@.len() - i,
    {
        if blocks[i].0.id == *id {
            assert(sourced_views(blocks@)[i as int].0.id@ == id@);
            return true;
        }
        i = i + 1;
    }
    assert forall|j: int| 0 <= j < blocks@.len() implies #[trigger] sourced_views(blocks@)[j].0.id@
        != id@ by {
        assert(sourced_views(blocks@)[j] == sourced_view(blocks@[j]));
    }
    false
}

/// Turns the model's facts into drafts. The mode's read filter is applied
/// to the blocks first; a fact naming a block outside them is dropped, one
/// naming no block is kept. Each kept fact becomes, in the model's order, a
/// draft with a fresh id, version 1, no validation, and the run's timestamp.
/// The only failure is reading the clock.
pub fn plan_drafts(blocks: &Vec<SourcedBlock>, mode: SessionMode, facts: &Vec<LlmFact>) -> (r:
    Result<Vec<Draft>, ExtractError>)
    ensures
        r is Err ==> r matches Err(ExtractError::Time(_)),
        r matches Ok(d) ==> {
            let accepted = accepted_facts(admitted_sourced(blocks@, mode_filter(mode)), facts@);
            &&& d@.len() == accepted.len()
            &&& forall|i: int|
                0 <= i < d@.len() ==> draft_of(#[trigger] d@[i], accepted[i], d@[0].fact.created_at)
            &&& forall|i: int|
                0 <= i < d@.len() ==> rfc3339_utc_shape((#[trigger] d@[i]).fact.created_at@)
        },
{
    let now = match now_rfc3339() {
        Ok(t) => t,
        Err(e) => {
            return Err(ExtractError::Time(e));
        },
    };
    let ghost t = now;
    let d = drafts_at(blocks, mode, facts, now);
    assert forall|i: int| 0 <= i < d@.len() implies rfc3339_utc_shape(
        (#[trigger] d@[i]).fact.created_at@,
    ) by {
        assert(d@[i].fact.created_at == t);
    }
    Ok(d)
}

/// The drafts of a run made at `now` (see [`plan_drafts`], which reads the
/// clock for it): one per kept fact, in the model's order.
pub fn drafts_at(blocks: &Vec<SourcedBlock>, mode: SessionMode, facts: &Vec<LlmFact>, now: String) -> (d:
    Vec<Draft>)
    ensures
        ({
            let accepted = accepted_facts(admitted_sourced(blocks@, mode_filter(mode)), facts@);
            &&& d@.len() == accepted.len()
            &&& forall|i: int| 0 <= i < d@.len() ==> draft_of(#[trigger] d@[i], accepted[i], now)
        }),
{
    let admitted = filter_sourced(blocks, mode.read_filter());
    let ghost p = |f: LlmFact| fact_accepted(sourced_views(admitted@), f);
    let mut out: Vec<Draft> = Vec::new();
    let mut i: usize = 0;
    while i < facts.len()
        invariant
            i <= facts@.len(),
            sourced_views(admitted@) == admitted_sourced(blocks@, mode_filter(mode)),
            p == (|f: LlmFact| fact_accepted(sourced_views(admitted@), f)),
            out@.len() == kept(facts@.take(i as int), p).len(),
            forall|j: int|
                0 <= j < out@.len() ==> draft_of(
                    #[trigger] out@[j],
                    kept(facts@.take(i as int), p)[j],
                    now,
                ),
        decreases facts@.len() - i,
    {
        assert(facts@.take(i + 1).drop_last() =~= facts@.take(i as int));
        assert(facts@.take(i + 1).last() == facts@[i as int]);
        let f = &facts[i];
        let accept = match &f.block_id {
            Some(b) => is_known_block(&admitted, b),
            None => true,
        };
        if accept {
            let fact = Fact {
                id: new_id(),
                version: 1,
                fact_type: f.fact_type.clone(),
                payload: f.payload.clone(),
                block_id: clone_opt_string(&f.block_id),
                sensitivity: f.sensitivity,
                created_at: now.clone(),
                validated_at: None,
            };
            let sources = clone_strings(&f.transcript_ids);
            let ghost before = out@;
            out.push(Draft { fact, sources });
            assert forall|j: int| 0 <= j < out@.len() implies draft_of(
                #[trigger] out@[j],
                kept(facts@.take(i + 1), p)[j],
                now,
            ) by {
                if j < before.len() {
                    assert(out@[j] == before[j]);
                }
            }
        }
        i = i + 1;
    }
    assert(facts@.take(facts@.len() as int) =~= facts@);
    out
}

/// In `Connected` mode no sensitive block enters the extraction prompt, and
/// every non-sensitive block does.
pub proof fn lemma_connected_extraction_excludes_sensitive(blocks: Seq<SourcedBlock>)
    ensures
        forall|i: int|
            0 <= i < admitted_sourced(blocks, mode_filter(SessionMode::Connected)).len() ==> !(
            #[trigger] admitted_sourced(blocks, mode_filter(SessionMode::Connected))[i]).0.sensitivity,
        forall|b: (Block, Seq<String>)|
            sourced_views(blocks).contains(b) && !b.0.sensitivity ==> #[trigger] admitted_sourced(
                blocks,
                mode_filter(SessionMode::Connected),
            ).contains(b),
{
    let p = |b: (Block, Seq<String>)| ReadFilter::ExcludeSensitive.admits_spec(b.0.sensitivity);
    lemma_kept_members(sourced_views(blocks), p);
    assert forall|b: (Block, Seq<String>)|
        sourced_views(blocks).contains(b) && !b.0.sensitivity implies #[trigger] admitted_sourced(
        blocks,
        mode_filter(SessionMode::Connected),
    ).contains(b) by {
        lemma_kept_complete(sourced_views(blocks), p, b);
    }
}

/// Every kept fact names no block or a block among the admitted ones:
/// facts attached to hallucinated blocks never become drafts.
pub proof fn lemma_accepted_facts_name_known_blocks(
    blocks: Seq<(Block, Seq<String>)>,
    facts: Seq<LlmFact>,
)
    ensures
        forall|i: int|
            0 <= i < accepted_facts(blocks, facts).len() ==> fact_accepted(
                blocks,
                #[trigger] accepted_facts(blocks, facts)[i],
            ),
{
    lemma_kept_members(facts, |f: LlmFact| fact_accepted(blocks, f));
}

/// A block's topic is written in the extraction prompt as a JSON string
/// literal: between `"topic":` and `,"content":` stands the quoted,
/// escaped topic, so the block's object stays valid JSON.
pub proof fn lemma_topic_is_json_string(b: (Block, Seq<String>), t: String)
    requires
        b.0.topic == Some(t),
    ensures
        block_item_text(b) == ("{\"block_id\":"@ + json_string(b.0.id@) + ",\"topic\":"@)
            + json_string(t@) + (",\"content\":"@ + json_string(b.0.content@)
            + ",\"transcript_ids\":"@ + json_string_array(b.1) + "}"@),
        json_string(t@).len() >= 2,
        json_string(t@)[0] == '"',
        json_string(t@)[json_string(t@).len() - 1] == '"',
{
    assert(block_item_text(b) =~= ("{\"block_id\":"@ + json_string(b.0.id@) + ",\"topic\":"@)
        + json_string(t@) + (",\"content\":"@ + json_string(b.0.content@)
        + ",\"transcript_ids\":"@ + json_string_array(b.1) + "}"@));
}

} // verus!

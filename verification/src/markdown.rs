//! The Markdown export of the whole base: transcripts grouped by session,
//! segmentations with their blocks, and every version of every fact.
use vstd::prelude::*;
use crate::extractor::SourcedBlock;
use crate::filter::kept;
use crate::json::texts;
use crate::l0::L0Entry;
use crate::l1::Segmentation;
use crate::l2::Fact;
use crate::links::{short_id, short_id_cuttable, short_text};
use crate::order::{session_order, sorted_session_ids};
use crate::text::{decimal, int_text, nat_text, replace_char, replace_char_with, signed_decimal};

verus! {

/// A segmentation with its blocks and their sources.
pub type SegmentationDump = (Segmentation, Vec<SourcedBlock>);

/// A fact with the ids of its source transcripts.
pub type FactDump = (Fact, Vec<String>);

/// What `serde_json::to_string_pretty` writes for the JSON value that
/// `serde_json::from_str` reads from `payload`; `None` when either fails.
pub uninterp spec fn json_pretty(payload: Seq<char>) -> Option<Seq<char>>;

/// `serde_json::from_str::<serde_json::Value>` on `payload`, then
/// `serde_json::to_string_pretty` on the value read. The result is the
/// name `json_pretty` of the payload, `None` when reading or writing
/// fails; what the pretty text looks like is left unstated.
#[verifier::external_body]
fn json_pretty_text(payload: &str) -> (r: Option<String>)
    ensures
        match json_pretty(payload@) {
            Some(p) => r matches Some(q) && q@ == p,
            None => r is None,
        },
{
    match serde_json::from_str::<serde_json::Value>(payload) {
        Ok(v) => serde_json::to_string_pretty(&v).ok(),
        Err(_) => None,
    }
}

/// A payload re-indented as pretty JSON, or unchanged when it is not JSON.
pub open spec fn pretty_or_raw(payload: Seq<char>) -> Seq<char> {
    match json_pretty(payload) {
        Some(p) => p,
        None => payload,
    }
}

/// A fact payload for display: pretty JSON, or the payload itself when it
/// does not read as JSON.
pub fn pretty_payload(payload: &str) -> (r: String)
    ensures
        r@ == pretty_or_raw(payload@),
{
    match json_pretty_text(payload) {
        Some(p) => p,
        None => String::from_str(payload),
    }
}

/// The displayed payloads of the facts, in order.
pub open spec fn pretty_payloads(facts: Seq<FactDump>) -> Seq<Seq<char>> {
    Seq::new(facts.len(), |i: int| pretty_or_raw(facts[i].0.payload@))
}

/// Ids between backquotes: joined by `` `, ` ``.
pub open spec fn joined_ids(ids: Seq<String>) -> Seq<char>
    decreases ids.len(),
{
    if ids.len() == 0 {
        Seq::empty()
    } else if ids.len() == 1 {
        ids[0]@
    } else {
        joined_ids(ids.drop_last()) + "`, `"@ + ids.last()@
    }
}

/// The line naming the source transcripts; nothing when there is none.
pub open spec fn sources_line(ids: Seq<String>) -> Seq<char> {
    if ids.len() == 0 {
        Seq::empty()
    } else {
        "sources L0 : `"@ + joined_ids(ids) + "`\n\n"@
    }
}

/// One transcript in its session's list.
pub open spec fn transcript_line(e: L0Entry) -> Seq<char> {
    "- `"@ + e.timestamp@ + "` ["@ + e.source@ + "] "@ + (if e.sensitivity {
        "[s] "@
    } else {
        "    "@
    }) + e.content@ + "\n"@
}

/// The lines of transcripts, in order.
pub open spec fn transcript_lines(es: Seq<L0Entry>) -> Seq<char>
    decreases es.len(),
{
    if es.len() == 0 {
        Seq::empty()
    } else {
        transcript_lines(es.drop_last()) + transcript_line(es.last())
    }
}

/// The transcripts of one session, in their order.
pub open spec fn in_session(entries: Seq<L0Entry>, sid: Seq<char>) -> Seq<L0Entry> {
    kept(entries, |e: L0Entry| e.session_id@ == sid)
}

/// The section of one session.
pub open spec fn session_section(sid: Seq<char>, es: Seq<L0Entry>) -> Seq<char> {
    "### Session `"@ + sid + "` ("@ + decimal(es.len()) + " entrées)\n\n"@ + transcript_lines(es)
        + "\n"@
}

/// The sections of the sessions `sids`, in that order.
pub open spec fn session_sections(sids: Seq<Seq<char>>, entries: Seq<L0Entry>) -> Seq<char>
    decreases sids.len(),
{
    if sids.len() == 0 {
        Seq::empty()
    } else {
        session_sections(sids.drop_last(), entries) + session_section(
            sids.last(),
            in_session(entries, sids.last()),
        )
    }
}

/// The transcripts part: a count, then one section per session, sessions
/// in increasing order of their ids.
pub open spec fn transcripts_part(entries: Seq<L0Entry>) -> Seq<char> {
    "## L0 — Transcripts ("@ + decimal(entries.len()) + " entrées)\n\n"@ + session_sections(
        session_order(entries),
        entries,
    )
}

/// The topic of a block, or `(sans topic)`.
pub open spec fn topic_text(topic: Option<String>) -> Seq<char> {
    match topic {
        Some(t) => t@,
        None => "(sans topic)"@,
    }
}

/// The section of one block: its position, sensitivity and topic, its
/// content on one line, its sources.
pub open spec fn block_section(b: SourcedBlock) -> Seq<char> {
    "#### Bloc "@ + signed_decimal(b.0.seq as int) + " — "@ + (if b.0.sensitivity {
        "[s] "@
    } else {
        "    "@
    }) + topic_text(b.0.topic) + "\n\n> "@ + replace_char(b.0.content@, '\n', " "@) + "\n\n"@
        + sources_line(b.1@)
}

/// The sections of blocks, in order.
pub open spec fn block_sections(bs: Seq<SourcedBlock>) -> Seq<char>
    decreases bs.len(),
{
    if bs.len() == 0 {
        Seq::empty()
    } else {
        block_sections(bs.drop_last()) + block_section(bs.last())
    }
}

/// The section of one segmentation and its blocks.
pub open spec fn segmentation_section(sd: SegmentationDump) -> Seq<char> {
    "### `"@ + sd.0.id@ + "` — session `"@ + sd.0.session_id@ + "` (model="@ + sd.0.model@
        + ", prompt="@ + sd.0.prompt_version@ + ")\n\n"@ + block_sections(sd.1@)
}

/// The sections of segmentations, in order.
pub open spec fn segmentation_sections(sds: Seq<SegmentationDump>) -> Seq<char>
    decreases sds.len(),
{
    if sds.len() == 0 {
        Seq::empty()
    } else {
        segmentation_sections(sds.drop_last()) + segmentation_section(sds.last())
    }
}

/// The segmentations part: a count, then one section per segmentation.
pub open spec fn segmentations_part(sds: Seq<SegmentationDump>) -> Seq<char> {
    "## L1 — Segmentations ("@ + decimal(sds.len()) + ")\n\n"@ + segmentation_sections(sds)
}

/// The section of one fact version: short id, version, status (`V`
/// validated, `D` draft), type, sensitivity, validation time, the payload
/// as displayed, its sources.
pub open spec fn fact_section(fd: FactDump, pretty: Seq<char>) -> Seq<char> {
    "### `"@ + short_text(fd.0.id@) + "` v"@ + signed_decimal(fd.0.version as int) + " — "@
        + (if fd.0.validated_at is Some {
        "V"@
    } else {
        "D"@
    }) + " type=`"@ + fd.0.fact_type@ + "` "@ + (if fd.0.sensitivity {
        "[s]"@
    } else {
        "   "@
    }) + " "@ + (match fd.0.validated_at {
        Some(v) => v@,
        None => "(draft)"@,
    }) + "\n\n"@ + "```json\n"@ + pretty + "\n```\n\n"@ + sources_line(fd.1@)
}

/// The sections of facts, each with its displayed payload.
pub open spec fn fact_sections(fds: Seq<FactDump>, pretty: Seq<Seq<char>>) -> Seq<char>
    decreases fds.len(),
{
    if fds.len() == 0 {
        Seq::empty()
    } else {
        fact_sections(fds.drop_last(), pretty) + fact_section(fds.last(), pretty[fds.len() - 1])
    }
}

/// The facts part: a count, then one section per fact version.
pub open spec fn facts_part(fds: Seq<FactDump>, pretty: Seq<Seq<char>>) -> Seq<char> {
    "## L2 — Faits ("@ + decimal(fds.len()) + ")\n\n"@ + fact_sections(fds, pretty)
}

/// The whole Markdown export made at `now`.
pub open spec fn markdown_text(
    now: Seq<char>,
    entries: Seq<L0Entry>,
    sds: Seq<SegmentationDump>,
    fds: Seq<FactDump>,
    pretty: Seq<Seq<char>>,
) -> Seq<char> {
    "# AZ — export "@ + now + "\n\n"@ + transcripts_part(entries) + segmentations_part(sds)
        + facts_part(fds, pretty)
}

/// Whether every fact id can be shortened for display.
pub open spec fn fact_ids_cuttable(fds: Seq<FactDump>) -> bool {
    forall|i: int| 0 <= i < fds.len() ==> short_id_cuttable(#[trigger] fds[i].0.id@)
}

fn joined_ids_text(ids: &Vec<String>) -> (r: String)
    ensures
        r@ == joined_ids(ids@),
{
    let mut out = String::new();
    let mut i: usize = 0;
    while i < ids.len()
        invariant
            i <= ids@.len(),
            out@ == joined_ids(ids@.take(i as int)),
        decreases ids@.len() - i,
    {
        assert(ids@.take(i + 1).drop_last() =~= ids@.take(i as int));
        if i > 0 {
            out.append("`, `");
        }
        out.append(ids[i].as_str());
        i = i + 1;
        assert(ids@.take(i as int).last() == ids@[i - 1]);
        if i == 1 {
            assert(out@ =~= joined_ids(ids@.take(i as int)));
        }
    }
    assert(ids@.take(ids@.len() as int) =~= ids@);
    out
}

fn sources_line_text(ids: &Vec<String>) -> (r: String)
    ensures
        r@ == sources_line(ids@),
{
    if ids.len() == 0 {
        String::new()
    } else {
        let mut out = String::from_str("sources L0 : `");
        let j = joined_ids_text(ids);
        out.append(j.as_str());
        out.append("`\n\n");
        out
    }
}

fn transcript_line_text(e: &L0Entry) -> (r: String)
    ensures
        r@ == transcript_line(*e),
{
    let mut out = String::from_str("- `");
    out.append(e.timestamp.as_str());
    out.append("` [");
    out.append(e.source.as_str());
    out.append("] ");
    if e.sensitivity {
        out.append("[s] ");
    } else {
        out.append("    ");
    }
    out.append(e.content.as_str());
    out.append("\n");
    out
}

fn session_entries(entries: &Vec<L0Entry>, sid: &String) -> (r: Vec<L0Entry>)
    ensures
        r@ == in_session(entries@, sid@),
{
    let mut out: Vec<L0Entry> = Vec::new();
    let mut i: usize = 0;
    let ghost p = |e: L0Entry| e.session_id@ == sid@;
    while i < entries.len()
        invariant
            i <= entries@.len(),
            p == (|e: L0Entry| e.session_id@ == sid@),
            out@ == kept(entries@.take(i as int), p),
        decreases entries@.len() - i,
    {
        assert(entries@.take(i + 1).drop_last() =~= entries@.take(i as int));
        if entries[i].session_id == *sid {
            out.push(entries[i].clone());
        }
        i = i + 1;
    }
    assert(entries@.take(entries@.len() as int) =~= entries@);
    out
}

fn session_section_text(sid: &String, entries: &Vec<L0Entry>) -> (r: String)
    ensures
        r@ == session_section(sid@, in_session(entries@, sid@)),
{
    let es = session_entries(entries, sid);
    let mut out = String::from_str("### Session `");
    out.append(sid.as_str());
    out.append("` (");
    let n = nat_text(es.len() as u64);
    out.append(n.as_str());
    out.append(" entrées)\n\n");
    let ghost head = out@;
    let mut i: usize = 0;
    while i < es.len()
        invariant
            i <= es@.len(),
            out@ == head + transcript_lines(es@.take(i as int)),
        decreases es@.len() - i,
    {
        assert(es@.take(i + 1).drop_last() =~= es@.take(i as int));
        let line = transcript_line_text(&es[i]);
        out.append(line.as_str());
        i = i + 1;
    }
    assert(es@.take(es@.len() as int) =~= es@);
    out.append("\n");
    out
}

fn transcripts_part_text(entries: &Vec<L0Entry>) -> (r: String)
    ensures
        r@ == transcripts_part(entries@),
{
    let sids = sorted_session_ids(entries);
    let mut out = String::from_str("## L0 — Transcripts (");
    let n = nat_text(entries.len() as u64);
    out.append(n.as_str());
    out.append(" entrées)\n\n");
    let ghost head = out@;
    let mut i: usize = 0;
    while i < sids.len()
        invariant
            i <= sids@.len(),
            texts(sids@) == session_order(entries@),
            out@ == head + session_sections(texts(sids@).take(i as int), entries@),
        decreases sids@.len() - i,
    {
        assert(texts(sids@).take(i + 1).drop_last() =~= texts(sids@).take(i as int));
        assert(texts(sids@).take(i + 1).last() == sids@[i as int]@);
        let section = session_section_text(&sids[i], entries);
        out.append(section.as_str());
        i = i + 1;
    }
    assert(texts(sids@).take(sids@.len() as int) =~= texts(sids@));
    out
}

fn block_section_text(b: &SourcedBlock) -> (r: String)
    ensures
        r@ == block_section(*b),
{
    let mut out = String::from_str("#### Bloc ");
    let seq = int_text(b.0.seq);
    out.append(seq.as_str());
    out.append(" — ");
    if b.0.sensitivity {
        out.append("[s] ");
    } else {
        out.append("    ");
    }
    match &b.0.topic {
        Some(t) => out.append(t.as_str()),
        None => out.append("(sans topic)"),
    }
    out.append("\n\n> ");
    let content = replace_char_with(b.0.content.as_str(), '\n', " ");
    out.append(content.as_str());
    out.append("\n\n");
    let sources = sources_line_text(&b.1);
    out.append(sources.as_str());
    out
}

fn segmentation_section_text(sd: &SegmentationDump) -> (r: String)
    ensures
        r@ == segmentation_section(*sd),
{
    let s = &sd.0;
    let mut out = String::from_str("### `");
    out.append(s.id.as_str());
    out.append("` — session `");
    out.append(s.session_id.as_str());
    out.append("` (model=");
    out.append(s.model.as_str());
    out.append(", prompt=");
    out.append(s.prompt_version.as_str());
    out.append(")\n\n");
    let ghost head = out@;
    let blocks = &sd.1;
    let mut i: usize = 0;
    while i < blocks.len()
        invariant
            i <= blocks@.len(),
            out@ == head + block_sections(blocks@.take(i as int)),
        decreases blocks@.len() - i,
    {
        assert(blocks@.take(i + 1).drop_last() =~= blocks@.take(i as int));
        let section = block_section_text(&blocks[i]);
        out.append(section.as_str());
        i = i + 1;
    }
    assert(blocks@.take(blocks@.len() as int) =~= blocks@);
    out
}

fn segmentations_part_text(sds: &Vec<SegmentationDump>) -> (r: String)
    ensures
        r@ == segmentations_part(sds@),
{
    let mut out = String::from_str("## L1 — Segmentations (");
    let n = nat_text(sds.len() as u64);
    out.append(n.as_str());
    out.append(")\n\n");
    let ghost head = out@;
    let mut i: usize = 0;
    while i < sds.len()
        invariant
            i <= sds@.len(),
            out@ == head + segmentation_sections(sds@.take(i as int)),
        decreases sds@.len() - i,
    {
        assert(sds@.take(i + 1).drop_last() =~= sds@.take(i as int));
        let section = segmentation_section_text(&sds[i]);
        out.append(section.as_str());
        i = i + 1;
    }
    assert(sds@.take(sds@.len() as int) =~= sds@);
    out
}

fn fact_section_text(fd: &FactDump, pretty: &String) -> (r: String)
    requires
        short_id_cuttable(fd.0.id@),
    ensures
        r@ == fact_section(*fd, pretty@),
{
    let f = &fd.0;
    let mut out = String::from_str("### `");
    let short = short_id(f.id.as_str());
    out.append(short);
    out.append("` v");
    let version = int_text(f.version);
    out.append(version.as_str());
    out.append(" — ");
    if f.validated_at.is_some() {
        out.append("V");
    } else {
        out.append("D");
    }
    out.append(" type=`");
    out.append(f.fact_type.as_str());
    out.append("` ");
    if f.sensitivity {
        out.append("[s]");
    } else {
        out.append("   ");
    }
    out.append(" ");
    match &f.validated_at {
        Some(v) => out.append(v.as_str()),
        None => out.append("(draft)"),
    }
    out.append("\n\n");
    out.append("```json\n");
    out.append(pretty.as_str());
    out.append("\n```\n\n");
    let sources = sources_line_text(&fd.1);
    out.append(sources.as_str());
    out
}

fn facts_part_text(fds: &Vec<FactDump>, pretty: &Vec<String>) -> (r: String)
    requires
        pretty@.len() == fds@.len(),
        fact_ids_cuttable(fds@),
    ensures
        r@ == facts_part(fds@, texts(pretty@)),
{
    let mut out = String::from_str("## L2 — Faits (");
    let n = nat_text(fds.len() as u64);
    out.append(n.as_str());
    out.append(")\n\n");
    let ghost head = out@;
    let mut i: usize = 0;
    while i < fds.len()
        invariant
            i <= fds@.len(),
            pretty@.len() == fds@.len(),
            fact_ids_cuttable(fds@),
            out@ == head + fact_sections(fds@.take(i as int), texts(pretty@)),
        decreases fds@.len() - i,
    {
        assert(fds@.take(i + 1).drop_last() =~= fds@.take(i as int));
        assert(short_id_cuttable(fds@[i as int].0.id@));
        let section = fact_section_text(&fds[i], &pretty[i]);
        assert(texts(pretty@)[i as int] == pretty@[i as int]@);
        out.append(section.as_str());
        i = i + 1;
    }
    assert(fds@.take(fds@.len() as int) =~= fds@);
    out
}

/// The Markdown export made at `now`, the payloads of the facts displayed
/// as given in `pretty` (one per fact, in order).
pub fn markdown_from_parts(
    now: &str,
    entries: &Vec<L0Entry>,
    segmentations: &Vec<SegmentationDump>,
    facts: &Vec<FactDump>,
    pretty: &Vec<String>,
) -> (r: String)
    requires
        pretty@.len() == facts@.len(),
        fact_ids_cuttable(facts@),
    ensures
        r@ == markdown_text(now@, entries@, segmentations@, facts@, texts(pretty@)),
{
    let mut out = String::from_str("# AZ — export ");
    out.append(now);
    out.append("\n\n");
    let t = transcripts_part_text(entries);
    out.append(t.as_str());
    let s = segmentations_part_text(segmentations);
    out.append(s.as_str());
    let f = facts_part_text(facts, pretty);
    out.append(f.as_str());
    out
}

/// The Markdown export made at `now` of the transcripts, the
/// segmentations with their blocks and sources, and the facts with their
/// sources; each fact payload is shown as pretty JSON when it reads as
/// JSON, as stored otherwise. Every fact id must be cuttable after eight
/// bytes for its short form.
pub fn render_markdown(
    now: &str,
    entries: &Vec<L0Entry>,
    segmentations: &Vec<SegmentationDump>,
    facts: &Vec<FactDump>,
) -> (r: String)
    requires
        fact_ids_cuttable(facts@),
    ensures
        r@ == markdown_text(now@, entries@, segmentations@, facts@, pretty_payloads(facts@)),
{
    let mut pretty: Vec<String> = Vec::new();
    let mut i: usize = 0;
    while i < facts.len()
        invariant
            i <= facts@.len(),
            pretty@.len() == i,
            forall|k: int|
                0 <= k < i ==> #[trigger] pretty@[k]@ == pretty_or_raw(facts@[k].0.payload@),
        decreases facts@.len() - i,
    {
        let p = pretty_payload(facts[i].0.payload.as_str());
        pretty.push(p);
        i = i + 1;
    }
    assert(texts(pretty@) =~= pretty_payloads(facts@));
    markdown_from_parts(now, entries, segmentations, facts, &pretty)
}

/// Each further id adds one separator and the id itself: the ids are
/// listed one by one, `` `, ` `` between consecutive ones.
pub proof fn lemma_joined_ids_push(ids: Seq<String>, x: String)
    requires
        ids.len() >= 1,
    ensures
        joined_ids(ids.push(x)) == joined_ids(ids) + "`, `"@ + x@,
{
    assert(ids.push(x).drop_last() =~= ids);
}

/// The joined ids are as long as the ids together plus one four-character
/// separator between each two consecutive ids.
pub proof fn lemma_joined_ids_len(ids: Seq<String>)
    requires
        ids.len() >= 1,
    ensures
        joined_ids(ids).len() == total_len(ids) + 4 * (ids.len() - 1),
    decreases ids.len(),
{
    reveal_strlit("`, `");
    assert("`, `"@.len() == 4);
    if ids.len() > 1 {
        lemma_joined_ids_len(ids.drop_last());
        assert(joined_ids(ids) == joined_ids(ids.drop_last()) + "`, `"@ + ids.last()@);
    } else {
        assert(ids.drop_last().len() == 0);
        assert(total_len(ids.drop_last()) == 0);
        assert(total_len(ids) == ids.last()@.len());
        assert(ids.last() == ids[0]);
    }
}

/// The number of characters of all the ids.
pub open spec fn total_len(ids: Seq<String>) -> nat
    decreases ids.len(),
{
    if ids.len() == 0 {
        0
    } else {
        total_len(ids.drop_last()) + ids.last()@.len()
    }
}

} // verus!

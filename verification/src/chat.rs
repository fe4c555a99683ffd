//! The line discipline of the chat tool: each line is a command or one
//! utterance to record.
use vstd::prelude::*;
use crate::text::{chars_of, string_of_range, trim, trim_bounds};

verus! {

/// What a typed line asks for.
#[derive(Debug, PartialEq, Eq)]
pub enum ChatLine {
    /// Nothing but white space: ignored.
    Blank,
    /// `/exit` or `/quit`.
    Quit,
    /// `/help`.
    Help,
    /// `/session`: print the session id.
    ShowSession,
    /// `/safe ` followed by white space only.
    SafeWithoutText,
    /// `/safe` alone.
    SafeAlone,
    /// An utterance to record with its sensitivity: `/safe <text>` records
    /// `<text>` as non-sensitive, any other line is recorded as sensitive.
    Utterance { content: String, sensitivity: bool },
}

/// `s` without its trailing `\n` and `\r` characters.
pub open spec fn trim_end_newlines(s: Seq<char>) -> Seq<char>
    decreases s.len(),
{
    if s.len() > 0 && (s.last() == '\n' || s.last() == '\r') {
        trim_end_newlines(s.drop_last())
    } else {
        s
    }
}

/// The text of a line: without trailing line breaks, then trimmed.
pub open spec fn typed_text(line: Seq<char>) -> Seq<char> {
    trim(trim_end_newlines(line))
}

/// Whether a text starts with `/safe ` (slash, `safe`, one space).
pub open spec fn safe_prefixed(t: Seq<char>) -> bool {
    t.len() >= 6 && t.take(6) == "/safe "@
}

/// Whether a text is one of the commands `/exit`, `/quit`, `/help`,
/// `/session`, `/safe`.
pub open spec fn is_command(t: Seq<char>) -> bool {
    t == "/exit"@ || t == "/quit"@ || t == "/help"@ || t == "/session"@ || t == "/safe"@
}

/// Classifies a line typed in the chat.
pub fn classify_line(line: &str) -> (r: ChatLine)
    ensures
        typed_text(line@).len() == 0 ==> r == ChatLine::Blank,
        typed_text(line@) == "/exit"@ || typed_text(line@) == "/quit"@ ==> r == ChatLine::Quit,
        typed_text(line@) == "/help"@ ==> r == ChatLine::Help,
        typed_text(line@) == "/session"@ ==> r == ChatLine::ShowSession,
        typed_text(line@) == "/safe"@ ==> r == ChatLine::SafeAlone,
        safe_prefixed(typed_text(line@)) && trim(typed_text(line@).skip(6)).len() == 0 ==> r
            == ChatLine::SafeWithoutText,
        safe_prefixed(typed_text(line@)) && trim(typed_text(line@).skip(6)).len() > 0 ==> (
        r matches ChatLine::Utterance { content, sensitivity } && content@ == trim(
            typed_text(line@).skip(6),
        ) && !sensitivity),
        typed_text(line@).len() > 0 && !is_command(typed_text(line@)) && !safe_prefixed(
            typed_text(line@),
        ) ==> (r matches ChatLine::Utterance { content, sensitivity } && content@ == typed_text(
            line@,
        ) && sensitivity),
{
    proof {
        reveal_strlit("/exit");
        reveal_strlit("/quit");
        reveal_strlit("/help");
        reveal_strlit("/session");
        reveal_strlit("/safe");
        reveal_strlit("/safe ");
    }
    let cs = chars_of(line);
    let mut n = cs.len();
    assert(cs@.take(n as int) =~= cs@);
    while n > 0 && (cs[n - 1] == '\n' || cs[n - 1] == '\r')
        invariant
            n <= cs@.len(),
            cs@ == line@,
            trim_end_newlines(line@) == trim_end_newlines(cs@.take(n as int)),
        decreases n,
    {
        assert(cs@.take(n as int).drop_last() =~= cs@.take(n - 1));
        n = n - 1;
    }
    assert(trim_end_newlines(cs@.take(n as int)) == cs@.take(n as int));
    let head = string_of_range(cs.as_slice(), 0, n);
    assert(cs@.subrange(0, n as int) =~= cs@.take(n as int));
    let hs = chars_of(head.as_str());
    let (lo, hi) = trim_bounds(hs.as_slice());
    let t = string_of_range(hs.as_slice(), lo, hi);
    let tc = chars_of(t.as_str());
    assert(t@ == typed_text(line@));
    assert("/help"@[1] != "/exit"@[1] && "/help"@[1] != "/quit"@[1]);
    assert("/safe"@[1] != "/exit"@[1] && "/safe"@[1] != "/quit"@[1] && "/safe"@[1] != "/help"@[1]);
    assert("/safe"@.len() != "/session"@.len());
    assert("/session"@.take(6)[2] != "/safe "@[2]);
    if tc.len() == 0 {
        return ChatLine::Blank;
    }
    if t == String::from_str("/exit") || t == String::from_str("/quit") {
        return ChatLine::Quit;
    }
    if t == String::from_str("/help") {
        return ChatLine::Help;
    }
    if t == String::from_str("/session") {
        return ChatLine::ShowSession;
    }
    if tc.len() >= 6 {
        let prefix = string_of_range(tc.as_slice(), 0, 6);
        assert(tc@.subrange(0, 6) =~= tc@.take(6));
        if prefix == String::from_str("/safe ") {
            let rest = string_of_range(tc.as_slice(), 6, tc.len());
            assert(tc@.subrange(6, tc@.len() as int) =~= tc@.skip(6));
            let rc = chars_of(rest.as_str());
            let (a, b) = trim_bounds(rc.as_slice());
            if a == b {
                return ChatLine::SafeWithoutText;
            }
            let content = string_of_range(rc.as_slice(), a, b);
            return ChatLine::Utterance { content, sensitivity: false };
        }
    }
    if t == String::from_str("/safe") {
        return ChatLine::SafeAlone;
    }
    ChatLine::Utterance { content: t, sensitivity: true }
}

/// Outcome of the check of a transcript typed in a session: the trimmed
/// content, or why it is refused.
pub open spec fn transcript_input(session_id: Seq<char>, content: Seq<char>) -> Result<
    Seq<char>,
    Seq<char>,
> {
    if trim(content).len() == 0 {
        Err("contenu vide"@)
    } else if trim(session_id).len() == 0 {
        Err("session_id manquant"@)
    } else {
        Ok(trim(content))
    }
}

/// Checks a transcript before it is appended to a session: its content,
/// trimmed, must not be empty, nor the session id once trimmed; the
/// trimmed content is what gets stored.
pub fn check_transcript_input(session_id: &str, content: &str) -> (r: Result<String, String>)
    ensures
        match transcript_input(session_id@, content@) {
            Ok(c) => r matches Ok(t) && t@ == c,
            Err(m) => r matches Err(e) && e@ == m,
        },
{
    let cs = chars_of(content);
    let (lo, hi) = trim_bounds(cs.as_slice());
    if lo == hi {
        return Err(String::from_str("contenu vide"));
    }
    let ss = chars_of(session_id);
    let (slo, shi) = trim_bounds(ss.as_slice());
    if slo == shi {
        return Err(String::from_str("session_id manquant"));
    }
    Ok(string_of_range(cs.as_slice(), lo, hi))
}

} // verus!

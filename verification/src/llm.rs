//! The language-model boundary: its errors, its answers, and how requests to
//! a local Ollama server are addressed and composed.
use vstd::prelude::*;

verus! {

/// Errors of a language-model backend.
#[derive(Debug)]
pub enum LlmError {
    Http(String),
    Decode(String),
    Backend(String),
}

/// The text generated by a backend.
#[derive(Debug)]
pub struct GenerationResponse {
    pub text: String,
}

/// Address of a local Ollama server when none is configured.
pub const DEFAULT_URL: &'static str = "http://localhost:11434";

/// `s` without its trailing `c` characters (`str::trim_end_matches(c)`).
pub open spec fn trim_end_char(s: Seq<char>, c: char) -> Seq<char>
    decreases s.len(),
{
    if s.len() > 0 && s.last() == c {
        trim_end_char(s.drop_last(), c)
    } else {
        s
    }
}

/// Client of an Ollama server.
pub struct OllamaClient {
    base_url: String,
}

impl OllamaClient {
    /// The base address of the server.
    pub closed spec fn base_url_view(&self) -> Seq<char> {
        self.base_url@
    }

    /// A client of the server at `base_url`.
    pub fn new(base_url: String) -> (r: OllamaClient)
        ensures
            r.base_url_view() == base_url@,
    {
        OllamaClient { base_url }
    }

    /// The base address without trailing slashes, followed by `path`.
    fn endpoint(&self, path: &str) -> (r: String)
        ensures
            r@ == trim_end_char(self.base_url_view(), '/') + path@,
    {
        let cs = crate::text::chars_of(self.base_url.as_str());
        let mut n = cs.len();
        assert(cs@.take(n as int) =~= cs@);
        while n > 0 && cs[n - 1] == '/'
            invariant
                n <= cs@.len(),
                cs@ == self.base_url@,
                trim_end_char(cs@, '/') == trim_end_char(cs@.take(n as int), '/'),
            decreases n,
        {
            assert(cs@.take(n as int).drop_last() =~= cs@.take(n - 1));
            n = n - 1;
        }
        let mut out = crate::text::string_of_range(cs.as_slice(), 0, n);
        assert(cs@.take(n as int) =~= cs@.subrange(0, n as int));
        out.append(path);
        out
    }

    /// Address of the generation endpoint.
    pub fn generate_url(&self) -> (r: String)
        ensures
            r@ == trim_end_char(self.base_url_view(), '/') + "/api/generate"@,
    {
        self.endpoint("/api/generate")
    }

    /// Address of the embeddings endpoint.
    pub fn embeddings_url(&self) -> (r: String)
        ensures
            r@ == trim_end_char(self.base_url_view(), '/') + "/api/embeddings"@,
    {
        self.endpoint("/api/embeddings")
    }
}

/// The single prompt sent to the server: the user text alone when there is
/// no system text, otherwise the system text, a blank line, the user text.
pub open spec fn generation_prompt_text(system: Seq<char>, user: Seq<char>) -> Seq<char> {
    if system.len() == 0 {
        user
    } else {
        system + "\n\n"@ + user
    }
}

/// The single prompt sent to the server.
pub fn generation_prompt(system: &str, user: &str) -> (r: String)
    ensures
        r@ == generation_prompt_text(system@, user@),
{
    if system.is_empty() {
        String::from_str(user)
    } else {
        let mut out = String::from_str(system);
        out.append("\n\n");
        out.append(user);
        out
    }
}

/// The `format` field of a generation request: `json` in JSON mode, absent
/// otherwise.
pub fn generation_format(json_mode: bool) -> (r: Option<&'static str>)
    ensures
        json_mode ==> (r matches Some(f) && f@ == "json"@),
        !json_mode ==> r is None,
{
    if json_mode {
        Some("json")
    } else {
        None
    }
}

/// Refuses an empty embedding: the server answered without a vector.
pub fn check_embedding(model: &str, len: usize) -> (r: Result<(), LlmError>)
    ensures
        len > 0 ==> r is Ok,
        len == 0 ==> (r matches Err(LlmError::Backend(m)) && m@
            == "ollama a renvoyé un embedding vide pour le modèle '"@ + model@ + "'"@),
{
    if len == 0 {
        let mut m = String::from_str("ollama a renvoyé un embedding vide pour le modèle '");
        m.append(model);
        m.append("'");
        Err(LlmError::Backend(m))
    } else {
        Ok(())
    }
}

} // verus!

//! Decisions taken while loading a model: which weight format a repository holds,
//! which family a quantized file belongs to, which files make up a sharded model,
//! and the end-of-sequence id read from the model's configuration.

use vstd::prelude::*;
use vstd::string::*;

use crate::hub::{HubInfo, ModelArch, ModelType};
use crate::text::{contains, starts_with, str_contains, str_starts_with};

verus! {

/// The lower-case form of a string, as `str::to_lowercase` gives it.
pub uninterp spec fn lower_of(s: Seq<char>) -> Seq<char>;

/// Relies on `str::to_lowercase`: the result depends on the characters alone.
#[verifier::external_body]
fn lowercase(s: &str) -> (r: String)
    ensures
        r@ == lower_of(s@),
{
    s.to_lowercase()
}

/// Why a model cannot be loaded.
#[derive(Debug, Clone, Copy, PartialEq, Eq, Structural)]
pub enum LoadError {
    /// Quantized Llama weights are not supported yet.
    LlamaGgufUnsupported,
    /// The repository names no supported family.
    UnsupportedModel,
    /// The model configuration has no numeric end-of-sequence id.
    MissingEosTokenId,
    /// The pattern that finds the merged file's path was refused.
    BadPattern,
    /// The merge tool's report names no `.gguf` file.
    MergedPathNotFound,
}

#[verifier::external_type_specification]
#[verifier::external_body]
pub struct ExRegex(regex::Regex);

#[verifier::external_type_specification]
#[verifier::external_body]
pub struct ExRegexError(regex::Error);

/// Relies on `regex::Regex::new`: compiles a pattern, or refuses it.
#[verifier::external_body]
fn compile_regex(pattern: &str) -> (r: Result<regex::Regex, regex::Error>) {
    regex::Regex::new(pattern)
}

/// Relies on `regex::Regex::captures`, with `Captures::get` and `Match::as_str` to
/// read the result: the text of capture group `i` of the leftmost match, if there
/// is a match and the group took part in it. That text is a slice of the haystack.
#[verifier::external_body]
fn capture_group(re: &regex::Regex, haystack: &str, i: usize) -> (r: Option<String>)
    ensures
        r matches Some(g) ==> contains(haystack@, g@),
{
    re.captures(haystack).and_then(|c| c.get(i)).map(|m| m.as_str().to_string())
}

/// The string with leading and trailing white space removed, as `str::trim` gives it.
pub uninterp spec fn trim_of(s: Seq<char>) -> Seq<char>;

/// Relies on `str::trim`: the result depends on the characters alone.
#[verifier::external_body]
fn trim(s: &str) -> (r: String)
    ensures
        r@ == trim_of(s@),
{
    s.trim().to_string()
}

/// The marker of quantized repositories.
pub open spec fn gguf_tag() -> Seq<char> {
    seq!['g', 'g', 'u', 'f']
}

/// The marker of Qwen3 repositories.
pub open spec fn qwen3_tag() -> Seq<char> {
    seq!['q', 'w', 'e', 'n', '3']
}

/// The marker of Llama repositories.
pub open spec fn llama_tag() -> Seq<char> {
    seq!['l', 'l', 'a', 'm', 'a']
}

/// The weight format of a repository, from its lower-cased name.
pub open spec fn format_of(lowered: Seq<char>) -> ModelType {
    if contains(lowered, gguf_tag()) {
        ModelType::Gguf
    } else {
        ModelType::Safetensors
    }
}

/// The family of a quantized repository, from its lower-cased name.
pub open spec fn gguf_family_of(lowered: Seq<char>) -> Result<ModelArch, LoadError> {
    if contains(lowered, qwen3_tag()) {
        Ok(ModelArch::Qwen3)
    } else if contains(lowered, llama_tag()) {
        Err(LoadError::LlamaGgufUnsupported)
    } else {
        Err(LoadError::UnsupportedModel)
    }
}

/// The names in `s` that start with `p`, in order.
pub open spec fn keep_prefixed(s: Seq<Seq<char>>, p: Seq<char>) -> Seq<Seq<char>>
    decreases s.len(),
{
    if s.len() == 0 {
        s
    } else if starts_with(s.last(), p) {
        keep_prefixed(s.drop_last(), p).push(s.last())
    } else {
        keep_prefixed(s.drop_last(), p)
    }
}

/// The characters of each string.
pub open spec fn views(v: Seq<String>) -> Seq<Seq<char>> {
    Seq::new(v.len(), |i: int| v[i]@)
}

/// The weight format of a repository whose name is already lower-cased.
pub fn format_of_lowered(lowered: &str) -> (r: ModelType)
    ensures
        r == format_of(lowered@),
{
    let tag = "gguf";
    proof {
        reveal_strlit("gguf");
        assert(tag@ =~= gguf_tag());
    }
    if str_contains(lowered, tag) {
        ModelType::Gguf
    } else {
        ModelType::Safetensors
    }
}

/// The family of a quantized repository whose name is already lower-cased.
pub fn gguf_family_of_lowered(lowered: &str) -> (r: Result<ModelArch, LoadError>)
    ensures
        r == gguf_family_of(lowered@),
{
    let q = "qwen3";
    let l = "llama";
    proof {
        reveal_strlit("qwen3");
        reveal_strlit("llama");
        assert(q@ =~= qwen3_tag());
        assert(l@ =~= llama_tag());
    }
    if str_contains(lowered, q) {
        Ok(ModelArch::Qwen3)
    } else if str_contains(lowered, l) {
        Err(LoadError::LlamaGgufUnsupported)
    } else {
        Err(LoadError::UnsupportedModel)
    }
}

/// Chooses how a registry entry is loaded.
pub struct ModelLoader;

impl ModelLoader {
    /// Quantized weights where the repository's name, lower-cased, holds `gguf`;
    /// full weights otherwise.
    pub fn model_type(hub_info: &HubInfo) -> (r: ModelType)
        ensures
            r == format_of(lower_of(hub_info.model_repo@)),
    {
        let lowered = lowercase(hub_info.model_repo.as_str());
        format_of_lowered(lowered.as_str())
    }

    /// The family of a quantized model, from its repository's name lower-cased:
    /// Qwen3 is supported, Llama is not yet, anything else is refused.
    pub fn gguf_family(hub_info: &HubInfo) -> (r: Result<ModelArch, LoadError>)
        ensures
            r == gguf_family_of(lower_of(hub_info.model_repo@)),
    {
        let lowered = lowercase(hub_info.model_repo.as_str());
        gguf_family_of_lowered(lowered.as_str())
    }
}

/// The file name of a quantized model: its base name with `.gguf` added.
pub fn gguf_file_name(filename: &str) -> (r: String)
    ensures
        r@ == filename@ + seq!['.', 'g', 'g', 'u', 'f'],
{
    let ext = ".gguf";
    proof {
        reveal_strlit(".gguf");
        assert(ext@ =~= seq!['.', 'g', 'g', 'u', 'f']);
    }
    String::from_str(filename).concat(ext)
}

/// The repository files that belong to a model stored under `prefix`, possibly in
/// shards, in the order listed.
pub fn shard_names(files: &Vec<String>, prefix: &str) -> (r: Vec<String>)
    ensures
        views(r@) == keep_prefixed(views(files@), prefix@),
{
    let n = files.len();
    let mut out: Vec<String> = Vec::new();
    let mut i: usize = 0;
    while i < n
        invariant
            n == files@.len(),
            i <= n,
            views(out@) == keep_prefixed(views(files@).subrange(0, i as int), prefix@),
        decreases n - i,
    {
        let ghost before = views(files@).subrange(0, i as int);
        let ghost next = views(files@).subrange(0, i + 1);
        assert(next.drop_last() =~= before);
        assert(next.last() == files@[i as int]@);
        if str_starts_with(files[i].as_str(), prefix) {
            let ghost o = out@;
            out.push(files[i].clone());
            assert(views(out@) =~= views(o).push(files@[i as int]@));
        }
        i = i + 1;
    }
    assert(views(files@).subrange(0, n as int) =~= views(files@));
    out
}

/// The merged file's path from the captured table cell, trimmed; no capture is an
/// error.
pub fn path_from_capture(cell: Option<String>) -> (r: Result<String, LoadError>)
    ensures
        match cell {
            Some(c) => r matches Ok(p) && p@ == trim_of(c@),
            None => r == Err::<String, LoadError>(LoadError::MergedPathNotFound),
        },
{
    match cell {
        Some(c) => Ok(trim(c.as_str())),
        None => Err(LoadError::MergedPathNotFound),
    }
}

/// The path of the merged `.gguf` file in the merge tool's report: the first table
/// cell, between `|` marks, that ends in `.gguf`, trimmed.
pub fn merged_gguf_path(report: &str) -> (r: Result<String, LoadError>)
    ensures
        r matches Ok(p) ==> exists|c: Seq<char>| contains(report@, c) && p@ == trim_of(c),
        r matches Err(e) ==> e == LoadError::BadPattern || e == LoadError::MergedPathNotFound,
{
    let re = match compile_regex("\\|\\s*([^\\|]+\\.gguf)\\s*\\|") {
        Ok(re) => re,
        Err(_) => {
            return Err(LoadError::BadPattern);
        },
    };
    let cell = capture_group(&re, report, 1);
    path_from_capture(cell)
}

/// The end-of-sequence id from the model configuration's numeric field, narrowed
/// to 32 bits; a missing field is an error.
pub fn eos_token_id(field: Option<u64>) -> (r: Result<u32, LoadError>)
    ensures
        match field {
            Some(x) => r == Ok::<u32, LoadError>(x as u32),
            None => r == Err::<u32, LoadError>(LoadError::MissingEosTokenId),
        },
{
    match field {
        Some(x) => Ok(x as u32),
        None => Err(LoadError::MissingEosTokenId),
    }
}

} // verus!

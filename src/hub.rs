//! Records describing where a model variant and its tokenizer live.

use vstd::prelude::*;
use vstd::string::*;

use crate::text::matches_at;

verus! {

/// The storage format of a model's weights.
#[derive(Debug, Clone, Copy, PartialEq, Eq, Structural)]
pub enum ModelType {
    Gguf,
    Safetensors,
}

/// A model family known to the registry.
#[derive(Debug, Clone, Copy, PartialEq, Eq, Structural)]
pub enum ModelArch {
    Qwen3,
    Llama,
}

/// The identifier token of the Qwen3 family.
pub open spec fn qwen3_name() -> Seq<char> {
    seq!['q', 'w', 'e', 'n', '3']
}

/// The identifier token of the Llama family.
pub open spec fn llama_name() -> Seq<char> {
    seq!['l', 'l', 'a', 'm', 'a']
}

/// The family that an architecture token names, if any.
pub open spec fn arch_of(s: Seq<char>) -> Option<ModelArch> {
    if s == qwen3_name() {
        Some(ModelArch::Qwen3)
    } else if s == llama_name() {
        Some(ModelArch::Llama)
    } else {
        None
    }
}

impl ModelArch {
    /// The lower-case token that names this family in identifiers.
    pub open spec fn spec_name(self) -> Seq<char> {
        match self {
            ModelArch::Qwen3 => qwen3_name(),
            ModelArch::Llama => llama_name(),
        }
    }

    /// Parses an architecture token; the match is exact and case-sensitive.
    pub fn from_name(s: &str) -> (r: Option<ModelArch>)
        ensures
            r == arch_of(s@),
    {
        let q = "qwen3";
        let l = "llama";
        proof {
            reveal_strlit("qwen3");
            reveal_strlit("llama");
            assert(q@ =~= qwen3_name());
            assert(l@ =~= llama_name());
        }
        let n = s.unicode_len();
        if n == 5 && matches_at(s, q, 0) {
            assert(s@ =~= s@.subrange(0, 5));
            Some(ModelArch::Qwen3)
        } else if n == 5 && matches_at(s, l, 0) {
            assert(s@ =~= s@.subrange(0, 5));
            Some(ModelArch::Llama)
        } else {
            proof {
                if s@ == qwen3_name() {
                    assert(s@.subrange(0, 5) =~= s@);
                }
                if s@ == llama_name() {
                    assert(s@.subrange(0, 5) =~= s@);
                }
            }
            None
        }
    }

    /// The lower-case token that names this family in identifiers.
    pub fn name(&self) -> (r: String)
        ensures
            r@ == self.spec_name(),
    {
        proof {
            reveal_strlit("qwen3");
            reveal_strlit("llama");
        }
        match self {
            ModelArch::Qwen3 => {
                let r = String::from_str("qwen3");
                assert(r@ =~= qwen3_name());
                r
            },
            ModelArch::Llama => {
                let r = String::from_str("llama");
                assert(r@ =~= llama_name());
                r
            },
        }
    }
}

/// The weights file name used when a variant does not name one.
pub open spec fn spec_default_model_file() -> Seq<char> {
    seq!['m', 'o', 'd', 'e', 'l', '.', 's', 'a', 'f', 'e', 't', 'e', 'n', 's', 'o', 'r', 's']
}

/// The weights file name used when a variant does not name one.
pub fn default_model_file() -> (r: String)
    ensures
        r@ == spec_default_model_file(),
{
    proof {
        reveal_strlit("model.safetensors");
    }
    let r = String::from_str("model.safetensors");
    assert(r@ =~= spec_default_model_file());
    r
}

/// One variant as configured, before its tokenizer source is settled.
#[derive(Debug, Clone)]
pub struct HubInfoRaw {
    pub model_repo: String,
    pub model_file: String,
    pub tokenizer_repo: Option<String>,
    pub default: bool,
}

/// One variant with its tokenizer source settled.
#[derive(Debug, Clone)]
pub struct HubInfo {
    pub model_repo: String,
    pub model_file: String,
    pub tokenizer_repo: String,
    pub default: bool,
}

/// The tokenizer source a raw record names, or else its model source.
pub open spec fn own_tokenizer(raw: HubInfoRaw) -> String {
    match raw.tokenizer_repo {
        Some(t) => t,
        None => raw.model_repo,
    }
}

/// The record a raw one settles to: its tokenizer source is `own_tokenizer(raw)`.
pub open spec fn settled(raw: HubInfoRaw) -> HubInfo {
    HubInfo {
        model_repo: raw.model_repo,
        model_file: raw.model_file,
        tokenizer_repo: own_tokenizer(raw),
        default: raw.default,
    }
}

impl From<HubInfoRaw> for HubInfo {
    /// Settles the tokenizer source: the configured one, else the model source.
    fn from(raw: HubInfoRaw) -> (r: HubInfo) {
        let model_repo = raw.model_repo.clone();
        let tokenizer_repo = match raw.tokenizer_repo {
            Some(t) => t,
            None => raw.model_repo,
        };
        HubInfo { model_repo, model_file: raw.model_file, tokenizer_repo, default: raw.default }
    }
}

impl vstd::std_specs::convert::FromSpecImpl<HubInfoRaw> for HubInfo {
    open spec fn obeys_from_spec() -> bool {
        true
    }

    open spec fn from_spec(raw: HubInfoRaw) -> HubInfo {
        settled(raw)
    }
}

} // verus!

//! The model registry: tokenizer-source inheritance and identifier resolution.

use vstd::prelude::*;
use vstd::string::*;

use crate::hub::{arch_of, own_tokenizer, settled, HubInfo, HubInfoRaw, ModelArch};
use crate::text::{
    ends_with, find_first, find_last, first_index, last_index, str_ends_with, str_eq, substring,
};
use crate::variants::{entry_is, has_name, names_unique, Variants};

verus! {

/// The suffix that marks a canonical, full-weight variant.
pub open spec fn base_suffix() -> Seq<char> {
    seq!['_', 'b', 'a', 's', 'e']
}

/// The variant name marks a canonical, full-weight variant.
pub open spec fn is_base_name(n: Seq<char>) -> bool {
    ends_with(n, base_suffix())
}

/// A base variant's name with its suffix removed.
pub open spec fn base_key(n: Seq<char>) -> Seq<char> {
    n.subrange(0, n.len() - 5)
}

/// The name of a derived variant without its last `_` segment.
pub open spec fn stem(n: Seq<char>) -> Seq<char> {
    match last_index(n, '_') {
        Some(p) => n.subrange(0, p),
        None => n,
    }
}

/// Entry `j` of `s` is a base variant whose key is `key`.
pub open spec fn is_base_of(s: Seq<(Seq<char>, HubInfoRaw)>, j: int, key: Seq<char>) -> bool {
    0 <= j < s.len() && is_base_name(s[j].0) && base_key(s[j].0) == key
}

/// The tokenizer source that the base variant with key `key` hands down, if one exists.
pub open spec fn inherited(s: Seq<(Seq<char>, HubInfoRaw)>, key: Seq<char>) -> Option<String> {
    if exists|j: int| is_base_of(s, j, key) {
        Some(own_tokenizer(s[choose|j: int| is_base_of(s, j, key)].1))
    } else {
        None
    }
}

/// The tokenizer source of entry `i` after inheritance: a base variant keeps its own
/// (its model source when none is configured); another keeps a configured one, else
/// takes its base's, else stays unset.
pub open spec fn filled_tokenizer(s: Seq<(Seq<char>, HubInfoRaw)>, i: int) -> Option<String> {
    if is_base_name(s[i].0) {
        Some(own_tokenizer(s[i].1))
    } else if s[i].1.tokenizer_repo.is_some() {
        s[i].1.tokenizer_repo
    } else {
        inherited(s, stem(s[i].0))
    }
}

/// Entry `i` of `s` after inheritance.
pub open spec fn filled_entry(s: Seq<(Seq<char>, HubInfoRaw)>, i: int) -> HubInfoRaw {
    HubInfoRaw { tokenizer_repo: filled_tokenizer(s, i), ..s[i].1 }
}

/// The table `s` after inheritance.
pub open spec fn filled(s: Seq<(Seq<char>, HubInfoRaw)>) -> Seq<(Seq<char>, HubInfoRaw)> {
    Seq::new(s.len(), |i: int| (s[i].0, filled_entry(s, i)))
}

/// The table `s` after inheritance, with every tokenizer source settled.
pub open spec fn resolved(s: Seq<(Seq<char>, HubInfoRaw)>) -> Seq<(Seq<char>, HubInfo)> {
    Seq::new(
        s.len(),
        |i: int|
(s[i].0, settled(filled_entry(s, i))),
    )
}

/// Entry `i` of `s` is a default and no earlier one is.
pub open spec fn is_first_default(s: Seq<(Seq<char>, HubInfo)>, i: int) -> bool {
    0 <= i < s.len() && s[i].1.default && forall|j: int| 0 <= j < i ==> !s[j].1.default
}

/// Some entry of `s` is a default.
pub open spec fn has_default(s: Seq<(Seq<char>, HubInfo)>) -> bool {
    exists|i: int| 0 <= i < s.len() && s[i].1.default
}

/// The identifier split at its first `.` into an architecture token and a variant token.
pub open spec fn split_id(id: Seq<char>) -> (Seq<char>, Option<Seq<char>>) {
    match first_index(id, '.') {
        Some(p) => (id.subrange(0, p), Some(id.subrange(p + 1, id.len() as int))),
        None => (id, None),
    }
}

/// Why an identifier does not resolve.
#[derive(Debug, Clone, Copy, PartialEq, Eq, Structural)]
pub enum RegistryError {
    /// The architecture token names no known family.
    UnknownArchitecture,
    /// The family is known but the registry holds no table for it.
    UnsupportedArchitecture,
    /// The variant token names no variant of the family.
    UnknownVariant,
    /// No variant token was given and no variant of the family is a default.
    NoDefaultAvailable,
}

/// The configuration as read: one table of raw variants per family.
#[derive(Debug)]
pub struct ModelRegistryRaw {
    pub qwen3: Variants<HubInfoRaw>,
    pub llama: Option<Variants<HubInfoRaw>>,
}

/// The settled registry: one table of variants per family.
#[derive(Debug)]
pub struct ModelRegistry {
    pub qwen3: Variants<HubInfo>,
    pub llama: Option<Variants<HubInfo>>,
}

impl ModelRegistryRaw {
    /// Each table has unique names.
    pub open spec fn wf(&self) -> bool {
        &&& self.qwen3.wf()
        &&& (self.llama matches Some(l) ==> l.wf())
    }
}

/// A base name is its key followed by the base suffix.
proof fn lemma_base_split(n: Seq<char>)
    requires
        is_base_name(n),
    ensures
        n =~= base_key(n) + base_suffix(),
{
    assert(n.subrange(n.len() - 5, n.len() as int) == base_suffix());
}

/// At most one base variant has a given key.
proof fn lemma_base_unique(s: Seq<(Seq<char>, HubInfoRaw)>, j: int, key: Seq<char>)
    requires
        names_unique(s),
        is_base_of(s, j, key),
    ensures
        inherited(s, key) == Some(own_tokenizer(s[j].1)),
{
    let k = choose|k: int| is_base_of(s, k, key);
    assert(is_base_of(s, k, key));
    lemma_base_split(s[j].0);
    lemma_base_split(s[k].0);
    assert(s[j].0 == s[k].0);
}

/// The tokenizer source handed down by the base variant whose key is `key`.
fn base_tokenizer(models: &Variants<HubInfoRaw>, key: &str) -> (r: Option<String>)
    requires
        models.wf(),
    ensures
        r == inherited(models@, key@),
{
    let n = models.len();
    let mut j: usize = 0;
    while j < n
        invariant
            n == models@.len(),
            models.wf(),
            j <= n,
            forall|k: int| 0 <= k < j ==> !is_base_of(models@, k, key@),
        decreases n - j,
    {
        let name = models.name_at(j);
        if is_base(name.as_str()) {
            let bk = substring(name.as_str(), 0, name.as_str().unicode_len() - 5);
            if str_eq(bk.as_str(), key) {
                let raw = models.value_at(j);
                let t = match &raw.tokenizer_repo {
                    Some(t) => t.clone(),
                    None => raw.model_repo.clone(),
                };
                proof {
                    lemma_base_unique(models@, j as int, key@);
                }
                return Some(t);
            }
        }
        j = j + 1;
    }
    None
}

/// Whether a variant name marks a base variant.
fn is_base(name: &str) -> (r: bool)
    ensures
        r == is_base_name(name@),
{
    let suffix = "_base";
    proof {
        reveal_strlit("_base");
        assert(suffix@ =~= base_suffix());
    }
    str_ends_with(name, suffix)
}

/// The stem of a variant name: the part before its last `_`, or the whole name.
fn name_stem(name: &str) -> (r: String)
    ensures
        r@ == stem(name@),
{
    match find_last(name, '_') {
        Some(p) => substring(name, 0, p),
        None => substring(name, 0, name.unicode_len()),
    }
}

/// The raw record with its tokenizer source replaced.
fn with_tokenizer(raw: &HubInfoRaw, tokenizer_repo: Option<String>) -> (r: HubInfoRaw)
    ensures
        r == (HubInfoRaw { tokenizer_repo, ..*raw }),
{
    HubInfoRaw {
        model_repo: raw.model_repo.clone(),
        model_file: raw.model_file.clone(),
        tokenizer_repo,
        default: raw.default,
    }
}

impl ModelRegistry {
    /// Each table has unique names.
    pub open spec fn wf(&self) -> bool {
        &&& self.qwen3.wf()
        &&& (self.llama matches Some(l) ==> l.wf())
    }

    /// The table of a family, if the registry holds one.
    pub open spec fn models_for(self, a: ModelArch) -> Option<Variants<HubInfo>> {
        match a {
            ModelArch::Qwen3 => Some(self.qwen3),
            ModelArch::Llama => self.llama,
        }
    }

    /// Why `id` does not resolve, or `None` when it does.
    pub open spec fn lookup_error(self, id: Seq<char>) -> Option<RegistryError> {
        let (a, v) = split_id(id);
        match arch_of(a) {
            None => Some(RegistryError::UnknownArchitecture),
            Some(arch) => match self.models_for(arch) {
                None => Some(RegistryError::UnsupportedArchitecture),
                Some(m) => match v {
                    Some(v) => if has_name(m@, v) {
                        None
                    } else {
                        Some(RegistryError::UnknownVariant)
                    },
                    None => if has_default(m@) {
                        None
                    } else {
                        Some(RegistryError::NoDefaultAvailable)
                    },
                },
            },
        }
    }

    /// `id` resolves to `h`: the variant it names, or else the first default.
    pub open spec fn resolves_to(self, id: Seq<char>, h: HubInfo) -> bool {
        let (a, v) = split_id(id);
        match arch_of(a) {
            None => false,
            Some(arch) => match self.models_for(arch) {
                None => false,
                Some(m) => match v {
                    Some(v) => entry_is(m@, v, h),
                    None => exists|i: int| is_first_default(m@, i) && m@[i].1 == h,
                },
            },
        }
    }

    /// Settles the tokenizer source of each variant of one family: a base variant
    /// (name ending in `_base`) without one takes its model source; any other variant
    /// without one takes the source of the base variant whose name, less `_base`,
    /// equals its own name less its last `_` segment. A configured source is kept.
    pub fn fill_arch_tokenizer_repos(models: &mut Variants<HubInfoRaw>)
        requires
            old(models).wf(),
        ensures
            final(models).wf(),
            final(models)@ == filled(old(models)@),
    {
        let ghost s = models@;
        let n = models.len();
        let mut out: Variants<HubInfoRaw> = Variants::new();
        let mut i: usize = 0;
        while i < n
            invariant
                n == s.len(),
                models@ == s,
                names_unique(s),
                out.wf(),
                i <= n,
                out@ =~= filled(s).subrange(0, i as int),
            decreases n - i,
        {
            let name = models.name_at(i);
            let raw = models.value_at(i);
            let tok: Option<String> = if is_base(name.as_str()) {
                match &raw.tokenizer_repo {
                    Some(t) => Some(t.clone()),
                    None => Some(raw.model_repo.clone()),
                }
            } else {
                match &raw.tokenizer_repo {
                    Some(t) => Some(t.clone()),
                    None => {
                        let st = name_stem(name.as_str());
                        base_tokenizer(models, st.as_str())
                    },
                }
            };
            let entry = with_tokenizer(raw, tok);
            assert(entry == filled_entry(s, i as int));
            proof {
                assert forall|k: int| 0 <= k < out@.len() implies out@[k].0 != name@ by {
                    assert(out@[k].0 == s[k].0);
                }
            }
            out.push_new(name.clone(), entry);
            i = i + 1;
        }
        assert(filled(s).subrange(0, n as int) =~= filled(s));
        *models = out;
    }

    /// Settles a raw configuration: inheritance within each family, then each
    /// remaining unset tokenizer source becomes the variant's model source.
    pub fn from_raw(raw: ModelRegistryRaw) -> (r: ModelRegistry)
        requires
            raw.wf(),
        ensures
            r.wf(),
            r.qwen3@ == resolved(raw.qwen3@),
            r.llama.is_some() == raw.llama.is_some(),
            raw.llama matches Some(l) ==> r.llama.unwrap()@ == resolved(l@),
    {
        let mut raw = raw;
        let qwen3 = settle(&mut raw.qwen3);
        let llama = match raw.llama {
            Some(mut l) => Some(settle(&mut l)),
            None => None,
        };
        ModelRegistry { qwen3, llama }
    }

    /// Builds the registry from a raw configuration; see `from_raw`.
    pub fn new(raw: ModelRegistryRaw) -> (r: ModelRegistry)
        requires
            raw.wf(),
        ensures
            r.wf(),
            r.qwen3@ == resolved(raw.qwen3@),
            r.llama.is_some() == raw.llama.is_some(),
            raw.llama matches Some(l) ==> r.llama.unwrap()@ == resolved(l@),
    {
        Self::from_raw(raw)
    }

    /// Resolves `"<arch>"` (the first default variant, in declaration order) or
    /// `"<arch>.<variant>"` (split at the first `.`) to its variant.
    pub fn get(&self, model_id: &str) -> (r: Result<&HubInfo, RegistryError>)
        requires
            self.wf(),
        ensures
            match r {
                Ok(h) => self.lookup_error(model_id@).is_none() && self.resolves_to(model_id@, *h),
                Err(e) => self.lookup_error(model_id@) == Some(e),
            },
    {
        let len = model_id.unicode_len();
        let (arch_str, variant) = match find_first(model_id, '.') {
            Some(p) => (substring(model_id, 0, p), Some(substring(model_id, p + 1, len))),
            None => (substring(model_id, 0, len), None),
        };
        assert(arch_str@ == split_id(model_id@).0);
        assert(variant.is_some() == split_id(model_id@).1.is_some());
        assert(variant matches Some(v) ==> v@ == split_id(model_id@).1.unwrap());
        let models = match ModelArch::from_name(arch_str.as_str()) {
            None => {
                return Err(RegistryError::UnknownArchitecture);
            },
            Some(ModelArch::Qwen3) => &self.qwen3,
            Some(ModelArch::Llama) => match &self.llama {
                Some(l) => l,
                None => {
                    return Err(RegistryError::UnsupportedArchitecture);
                },
            },
        };
        match variant {
            Some(v) => match models.get(v.as_str()) {
                Some(h) => Ok(h),
                None => Err(RegistryError::UnknownVariant),
            },
            None => match first_default(models) {
                Some(i) => Ok(models.value_at(i)),
                None => Err(RegistryError::NoDefaultAvailable),
            },
        }
    }
}

/// Inheritance on one family's table, then each entry settled.
fn settle(models: &mut Variants<HubInfoRaw>) -> (r: Variants<HubInfo>)
    requires
        old(models).wf(),
    ensures
        r.wf(),
        r@ == resolved(old(models)@),
{
    let ghost s = models@;
    ModelRegistry::fill_arch_tokenizer_repos(models);
    let n = models.len();
    let mut out: Variants<HubInfo> = Variants::new();
    let mut i: usize = 0;
    while i < n
        invariant
            n == s.len(),
            models@ == filled(s),
            models.wf(),
            out.wf(),
            i <= n,
            out@ =~= resolved(s).subrange(0, i as int),
        decreases n - i,
    {
        let name = models.name_at(i);
        let raw = models.value_at(i);
        let entry = with_tokenizer(raw, match &raw.tokenizer_repo {
            Some(t) => Some(t.clone()),
            None => None,
        });
        assert(entry == filled_entry(s, i as int));
        let h = HubInfo::from(entry);
        proof {
            assert forall|k: int| 0 <= k < out@.len() implies out@[k].0 != name@ by {
                assert(out@[k].0 == s[k].0);
                assert(models@[k].0 == s[k].0);
            }
        }
        out.push_new(name.clone(), h);
        i = i + 1;
    }
    assert(resolved(s).subrange(0, n as int) =~= resolved(s));
    out
}

/// The position of the first default variant.
fn first_default(models: &Variants<HubInfo>) -> (r: Option<usize>)
    ensures
        match r {
            Some(i) => is_first_default(models@, i as int),
            None => !has_default(models@),
        },
{
    let n = models.len();
    let mut i: usize = 0;
    while i < n
        invariant
            n == models@.len(),
            i <= n,
            forall|j: int| 0 <= j < i ==> !models@[j].1.default,
        decreases n - i,
    {
        if models.value_at(i).default {
            return Some(i);
        }
        i = i + 1;
    }
    None
}

} // verus!

verus! {

/// An architecture token holds no `.`.
proof fn lemma_arch_name_no_dot(a: ModelArch)
    ensures
        !crate::text::has_char(a.spec_name(), '.'),
        arch_of(a.spec_name()) == Some(a),
{
    let n = a.spec_name();
    assert forall|i: int| 0 <= i < n.len() implies n[i] != '.' by {
        assert(n.len() == 5);
        assert(n[0] != '.' && n[1] != '.' && n[2] != '.' && n[3] != '.' && n[4] != '.');
    }
    assert(crate::hub::qwen3_name() != crate::hub::llama_name()) by {
        assert(crate::hub::qwen3_name()[0] != crate::hub::llama_name()[0]);
    }
}

/// A token without `.`, a `.`, then `v`, splits into that token and `v`.
proof fn lemma_split_dotted(a: Seq<char>, v: Seq<char>)
    requires
        !crate::text::has_char(a, '.'),
    ensures
        split_id(a + seq!['.'] + v) == (a, Some(v)),
{
    let id = a + seq!['.'] + v;
    assert(id[a.len() as int] == '.');
    assert forall|j: int| 0 <= j < a.len() implies id[j] != '.' by {
        assert(id[j] == a[j]);
    }
    crate::text::lemma_first_index(id, '.', a.len() as int);
    assert(id.subrange(0, a.len() as int) =~= a);
    assert(id.subrange(a.len() as int + 1, id.len() as int) =~= v);
}

/// A token without `.` does not split.
proof fn lemma_split_bare(a: Seq<char>)
    requires
        !crate::text::has_char(a, '.'),
    ensures
        split_id(a) == (a, None::<Seq<char>>),
{
}

/// Resolving `"<arch>.<variant>"`: a variant present in the family's table resolves
/// to its entry, and to nothing else; a variant absent from it fails with
/// `UnknownVariant`; a family without a table fails with `UnsupportedArchitecture`.
pub proof fn lemma_resolve_variant(reg: ModelRegistry, arch: ModelArch, v: Seq<char>)
    requires
        reg.wf(),
    ensures
        ({
            let id = arch.spec_name() + seq!['.'] + v;
            match reg.models_for(arch) {
                None => reg.lookup_error(id) == Some(RegistryError::UnsupportedArchitecture),
                Some(m) => {
                    &&& forall|h: HubInfo|
                        entry_is(m@, v, h) ==> reg.lookup_error(id).is_none() && reg.resolves_to(
                            id,
                            h,
                        )
                    &&& forall|h1: HubInfo, h2: HubInfo|
                        reg.resolves_to(id, h1) && reg.resolves_to(id, h2) ==> h1 == h2
                    &&& !has_name(m@, v) ==> reg.lookup_error(id) == Some(
                        RegistryError::UnknownVariant,
                    )
                },
            }
        }),
{
    lemma_arch_name_no_dot(arch);
    lemma_split_dotted(arch.spec_name(), v);
    if let Some(m) = reg.models_for(arch) {
        assert(m.wf());
        assert forall|h1: HubInfo, h2: HubInfo|
            entry_is(m@, v, h1) && entry_is(m@, v, h2) implies h1 == h2 by {
            let i = choose|i: int| 0 <= i < m@.len() && m@[i].0 == v && m@[i].1 == h1;
            let j = choose|j: int| 0 <= j < m@.len() && m@[j].0 == v && m@[j].1 == h2;
            assert(i == j);
        }
        let id = arch.spec_name() + seq!['.'] + v;
        assert forall|h1: HubInfo, h2: HubInfo|
            reg.resolves_to(id, h1) && reg.resolves_to(id, h2) implies h1 == h2 by {
            assert(entry_is(m@, v, h1) && entry_is(m@, v, h2));
        }
    }
}

/// Resolving an identifier whose architecture token names no family fails with
/// `UnknownArchitecture`, whatever follows it.
pub proof fn lemma_resolve_unknown_arch(reg: ModelRegistry, a: Seq<char>, v: Option<Seq<char>>)
    requires
        !crate::text::has_char(a, '.'),
        arch_of(a).is_none(),
    ensures
        ({
            let id = match v {
                Some(v) => a + seq!['.'] + v,
                None => a,
            };
            reg.lookup_error(id) == Some(RegistryError::UnknownArchitecture)
        }),
{
    match v {
        Some(v) => lemma_split_dotted(a, v),
        None => lemma_split_bare(a),
    }
}

/// Resolving a bare architecture token: where exactly one variant of the family is a
/// default, it resolves to that variant; where none is, it fails with
/// `NoDefaultAvailable`.
pub proof fn lemma_resolve_default(reg: ModelRegistry, arch: ModelArch)
    requires
        reg.wf(),
        reg.models_for(arch).is_some(),
    ensures
        ({
            let id = arch.spec_name();
            let m = reg.models_for(arch).unwrap();
            &&& forall|i: int|
                0 <= i < m@.len() && m@[i].1.default && (forall|j: int|
                    0 <= j < m@.len() && j != i ==> !m@[j].1.default) ==> reg.lookup_error(
                    id,
                ).is_none() && reg.resolves_to(id, m@[i].1) && (forall|h: HubInfo|
                    reg.resolves_to(id, h) ==> h == m@[i].1)
            &&& (forall|j: int| 0 <= j < m@.len() ==> !m@[j].1.default) ==> reg.lookup_error(id)
                == Some(RegistryError::NoDefaultAvailable)
        }),
{
    lemma_arch_name_no_dot(arch);
    lemma_split_bare(arch.spec_name());
    let id = arch.spec_name();
    let m = reg.models_for(arch).unwrap();
    assert forall|i: int|
        0 <= i < m@.len() && m@[i].1.default && (forall|j: int|
            0 <= j < m@.len() && j != i ==> !m@[j].1.default) implies reg.lookup_error(
        id,
    ).is_none() && reg.resolves_to(id, m@[i].1) && (forall|h: HubInfo|
        reg.resolves_to(id, h) ==> h == m@[i].1) by {
        assert(is_first_default(m@, i));
        assert forall|h: HubInfo| reg.resolves_to(id, h) implies h == m@[i].1 by {
            let k = choose|k: int| is_first_default(m@, k) && m@[k].1 == h;
            assert(k == i);
        }
    }
}

/// Inheritance: where a base variant `"<key>_base"` and a variant `"<key>_<tag>"`
/// (`tag` without `_`) configure no tokenizer source, both take the base's model
/// source.
pub proof fn lemma_inherit_from_base(
    s: Seq<(Seq<char>, HubInfoRaw)>,
    j: int,
    i: int,
    key: Seq<char>,
    tag: Seq<char>,
)
    requires
        names_unique(s),
        0 <= j < s.len(),
        0 <= i < s.len(),
        s[j].0 == key + base_suffix(),
        s[j].1.tokenizer_repo.is_none(),
        s[i].0 == key + seq!['_'] + tag,
        !crate::text::has_char(tag, '_'),
        !is_base_name(s[i].0),
        s[i].1.tokenizer_repo.is_none(),
    ensures
        filled(s)[j].1.tokenizer_repo == Some(s[j].1.model_repo),
        filled(s)[i].1.tokenizer_repo == Some(s[j].1.model_repo),
{
    let n = s[j].0;
    assert(n.subrange(n.len() - 5, n.len() as int) =~= base_suffix());
    assert(base_key(n) =~= key);
    let m = s[i].0;
    let p = key.len() as int;
    assert(m[p] == '_');
    assert forall|k: int| p < k < m.len() implies m[k] != '_' by {
        assert(m[k] == tag[k - p - 1]);
    }
    crate::text::lemma_last_index(m, '_', p);
    assert(stem(m) =~= key);
    lemma_base_unique(s, j, key);
}

} // verus!

//! The registry of local AI models and the rules that locate them on disk.

use vstd::prelude::*;
use crate::text::{decimal, join, join_path, push_decimal, push_str, str_eq};

verus! {

/// What a model is for.
#[derive(Clone, Copy, PartialEq, Eq, Structural)]
pub enum ModelKind {
    /// General-purpose language model.
    Llm,
    /// Embedding model (returns vectors, not text).
    Embedding,
}

/// A model entry in the registry.
#[derive(Clone, Copy)]
pub struct ModelEntry {
    pub id: &'static str,
    pub display: &'static str,
    pub description: &'static str,
    pub url: &'static str,
    pub filename: &'static str,
    /// Expected file size in bytes (approximate).
    pub size_bytes: u64,
    pub kind: ModelKind,
}

pub open spec fn qwen3_small_spec() -> ModelEntry {
    ModelEntry {
        id: "qwen3:0.6b",
        display: "Qwen3 0.6B (default, fast)",
        description: "Small but capable bilingual model. ~390 MB.",
        url: "https://huggingface.co/Qwen/Qwen3-0.6B-GGUF/resolve/main/qwen3-0.6b-q4_k_m.gguf",
        filename: "qwen3-0.6b-q4_k_m.gguf",
        size_bytes: 409_000_000,
        kind: ModelKind::Llm,
    }
}

pub open spec fn qwen3_medium_spec() -> ModelEntry {
    ModelEntry {
        id: "qwen3:1.7b",
        display: "Qwen3 1.7B (balanced)",
        description: "Better reasoning, more memory. ~1.1 GB.",
        url: "https://huggingface.co/Qwen/Qwen3-1.7B-GGUF/resolve/main/qwen3-1.7b-q4_k_m.gguf",
        filename: "qwen3-1.7b-q4_k_m.gguf",
        size_bytes: 1_100_000_000,
        kind: ModelKind::Llm,
    }
}

pub open spec fn nomic_embed_spec() -> ModelEntry {
    ModelEntry {
        id: "nomic-embed",
        display: "Nomic Embed Text v1.5 (semantic search)",
        description: "High-quality embedding model. ~80 MB.",
        url: "https://huggingface.co/nomic-ai/nomic-embed-text-v1.5-GGUF/resolve/main/nomic-embed-text-v1.5.Q4_K_M.gguf",
        filename: "nomic-embed-text-v1.5.Q4_K_M.gguf",
        size_bytes: 80_000_000,
        kind: ModelKind::Embedding,
    }
}

/// All models Esprit knows about, in registry order.
pub open spec fn registry_spec() -> Seq<ModelEntry> {
    seq![qwen3_small_spec(), qwen3_medium_spec(), nomic_embed_spec()]
}

/// All models Esprit knows about, in registry order.
pub fn registry() -> (r: Vec<ModelEntry>)
    ensures
        r@ == registry_spec(),
{
    let a = ModelEntry {
        id: "qwen3:0.6b",
        display: "Qwen3 0.6B (default, fast)",
        description: "Small but capable bilingual model. ~390 MB.",
        url: "https://huggingface.co/Qwen/Qwen3-0.6B-GGUF/resolve/main/qwen3-0.6b-q4_k_m.gguf",
        filename: "qwen3-0.6b-q4_k_m.gguf",
        size_bytes: 409_000_000,
        kind: ModelKind::Llm,
    };
    let b = ModelEntry {
        id: "qwen3:1.7b",
        display: "Qwen3 1.7B (balanced)",
        description: "Better reasoning, more memory. ~1.1 GB.",
        url: "https://huggingface.co/Qwen/Qwen3-1.7B-GGUF/resolve/main/qwen3-1.7b-q4_k_m.gguf",
        filename: "qwen3-1.7b-q4_k_m.gguf",
        size_bytes: 1_100_000_000,
        kind: ModelKind::Llm,
    };
    let c = ModelEntry {
        id: "nomic-embed",
        display: "Nomic Embed Text v1.5 (semantic search)",
        description: "High-quality embedding model. ~80 MB.",
        url: "https://huggingface.co/nomic-ai/nomic-embed-text-v1.5-GGUF/resolve/main/nomic-embed-text-v1.5.Q4_K_M.gguf",
        filename: "nomic-embed-text-v1.5.Q4_K_M.gguf",
        size_bytes: 80_000_000,
        kind: ModelKind::Embedding,
    };
    let mut r = Vec::new();
    r.push(a);
    r.push(b);
    r.push(c);
    assert(r@ =~= registry_spec());
    r
}

} // verus!

verus! {

/// The first registry entry whose id is `id`, if any.
pub open spec fn lookup_spec(id: Seq<char>) -> Option<ModelEntry> {
    if exists|i: int| 0 <= i < registry_spec().len() && (#[trigger] registry_spec()[i]).id@ == id {
        let i = choose|i: int|
            0 <= i < registry_spec().len() && (#[trigger] registry_spec()[i]).id@ == id
                && forall|j: int| 0 <= j < i ==> (#[trigger] registry_spec()[j]).id@ != id;
        Some(registry_spec()[i])
    } else {
        None
    }
}

/// Find a registry entry by model id (e.g. `"qwen3:0.6b"`).
pub fn lookup(id: &str) -> (r: Option<ModelEntry>)
    ensures
        match r {
            Some(e) => exists|i: int|
                0 <= i < registry_spec().len() && registry_spec()[i] == e && e.id@ == id@
                    && forall|j: int| 0 <= j < i ==> (#[trigger] registry_spec()[j]).id@ != id@,
            None => forall|i: int|
                0 <= i < registry_spec().len() ==> (#[trigger] registry_spec()[i]).id@ != id@,
        },
{
    let reg = registry();
    let mut i: usize = 0;
    while i < reg.len()
        invariant
            reg@ == registry_spec(),
            i <= reg.len(),
            forall|j: int| 0 <= j < i ==> (#[trigger] registry_spec()[j]).id@ != id@,
        decreases reg.len() - i,
    {
        if str_eq(reg[i].id, id) {
            return Some(reg[i]);
        }
        i = i + 1;
    }
    None
}

/// The default language model: the first registry entry.
pub fn default_llm() -> (e: ModelEntry)
    ensures
        e == registry_spec()[0],
{
    let reg = registry();
    reg[0]
}

/// The default embedding model: the third registry entry.
pub fn default_embed() -> (e: ModelEntry)
    ensures
        e == registry_spec()[2],
{
    let reg = registry();
    reg[2]
}

/// Full path of a model file inside the models directory.
pub fn model_path(models_dir: &str, filename: &str) -> (p: String)
    ensures
        p@ == join_path(models_dir@, filename@),
{
    join(models_dir, filename)
}

/// Why a model could not be used.
pub enum ModelError {
    /// The model file is absent; the message says how to install it.
    NotInstalled(String),
}

/// The guidance shown when `entry` is not installed.
pub open spec fn not_installed_message(entry: ModelEntry) -> Seq<char> {
    "Model \""@ + entry.display@ + "\" is not installed.\nRun:  esprit model pull "@ + entry.id@
        + "\nOr:   esprit init          (to install defaults)"@
}

/// The path of the installed model, or an error with guidance.
/// `present` tells whether the file at `model_path(models_dir, entry.filename)` exists.
pub fn require(entry: &ModelEntry, models_dir: &str, present: bool) -> (r: Result<String, ModelError>)
    ensures
        present ==> (r matches Ok(p) && p@ == join_path(models_dir@, entry.filename@)),
        !present ==> (r matches Err(ModelError::NotInstalled(m)) && m@ == not_installed_message(*entry)),
{
    let path = model_path(models_dir, entry.filename);
    if present {
        Ok(path)
    } else {
        let mut m = String::new();
        push_str(&mut m, "Model \"");
        push_str(&mut m, entry.display);
        push_str(&mut m, "\" is not installed.\nRun:  esprit model pull ");
        push_str(&mut m, entry.id);
        push_str(&mut m, "\nOr:   esprit init          (to install defaults)");
        Err(ModelError::NotInstalled(m))
    }
}

/// Every registry entry paired with its installation status; `present[i]`
/// tells whether the file of the `i`-th entry exists.
pub fn list_status(present: &[bool]) -> (r: Vec<(ModelEntry, bool)>)
    requires
        present@.len() == registry_spec().len(),
    ensures
        r@.len() == registry_spec().len(),
        forall|i: int| 0 <= i < r@.len() ==> #[trigger] r@[i] == (registry_spec()[i], present@[i]),
{
    let reg = registry();
    let mut out: Vec<(ModelEntry, bool)> = Vec::new();
    let mut i: usize = 0;
    while i < reg.len()
        invariant
            reg@ == registry_spec(),
            present@.len() == reg@.len(),
            i <= reg.len(),
            out@.len() == i,
            forall|j: int| 0 <= j < i ==> #[trigger] out@[j] == (registry_spec()[j], present@[j]),
        decreases reg.len() - i,
    {
        out.push((reg[i], present[i]));
        i = i + 1;
    }
    out
}

/// The entry of the active language model: the requested id when the
/// registry knows it, the default otherwise.
pub fn active_llm_entry(requested: Option<&str>) -> (e: ModelEntry)
    ensures
        e == match requested {
            Some(id) => match lookup_spec(id@) {
                Some(found) => found,
                None => registry_spec()[0],
            },
            None => registry_spec()[0],
        },
{
    match requested {
        Some(id) => match lookup(id) {
            Some(found) => {
                proof { lookup_agrees(id@, found); }
                found
            },
            None => {
                proof { lookup_agrees_none(id@); }
                default_llm()
            },
        },
        None => default_llm(),
    }
}

proof fn lookup_agrees(id: Seq<char>, e: ModelEntry)
    requires
        exists|i: int|
            0 <= i < registry_spec().len() && registry_spec()[i] == e && e.id@ == id
                && forall|j: int| 0 <= j < i ==> (#[trigger] registry_spec()[j]).id@ != id,
    ensures
        lookup_spec(id) == Some(e),
{
    let i = choose|i: int|
        0 <= i < registry_spec().len() && registry_spec()[i] == e && e.id@ == id
            && forall|j: int| 0 <= j < i ==> (#[trigger] registry_spec()[j]).id@ != id;
    assert(registry_spec()[i].id@ == id);
    let k = choose|k: int|
        0 <= k < registry_spec().len() && (#[trigger] registry_spec()[k]).id@ == id
            && forall|j: int| 0 <= j < k ==> (#[trigger] registry_spec()[j]).id@ != id;
    if k < i {
        assert(registry_spec()[k].id@ != id);
    } else if k > i {
        assert(registry_spec()[i].id@ != id);
    }
}

proof fn lookup_agrees_none(id: Seq<char>)
    requires
        forall|i: int| 0 <= i < registry_spec().len() ==> (#[trigger] registry_spec()[i]).id@ != id,
    ensures
        lookup_spec(id) is None,
{
}

/// The path of the embedding model when it is installed (see [`require`]).
pub fn active_embed_path(models_dir: &str, present: bool) -> (r: Result<String, ModelError>)
    ensures
        present ==> (r matches Ok(p) && p@ == join_path(models_dir@, registry_spec()[2].filename@)),
        !present ==> (r matches Err(ModelError::NotInstalled(m)) && m@ == not_installed_message(registry_spec()[2])),
{
    let e = default_embed();
    require(&e, models_dir, present)
}

/// Whether semantic search can run: exactly when the embedding model is installed.
pub fn is_available(models_dir: &str, present: bool) -> (b: bool)
    ensures
        b == present,
{
    active_embed_path(models_dir, present).is_ok()
}

/// A download counts as complete when the file is within 1 MB of the expected size.
pub fn download_complete(size: u64, expected: u64) -> (b: bool)
    ensures
        b == (size + 1_000_000 >= expected),
{
    size >= expected.saturating_sub(1_000_000)
}

/// The HTTP `Range` header value that resumes a download at byte `offset`.
pub fn range_header(offset: u64) -> (h: String)
    ensures
        h@ == "bytes="@ + decimal(offset as nat) + "-"@,
{
    let mut h = String::new();
    push_str(&mut h, "bytes=");
    push_decimal(&mut h, offset);
    push_str(&mut h, "-");
    h
}

/// Whether a download response can be written out: a success status, which
/// includes 206 (Partial Content) for a resumed download.
pub fn accepts_status(code: u16) -> (b: bool)
    ensures
        b == (200 <= code <= 299),
{
    (200 <= code && code <= 299) || code == 206
}

/// The `Range` header a download sends, given the size of the partial file
/// left by an earlier attempt (if any): none for a fresh start.
pub fn resume_header(partial_size: Option<u64>) -> (h: Option<String>)
    ensures
        match partial_size {
            Some(n) if n > 0 => h matches Some(v) && v@ == "bytes="@ + decimal(n as nat) + "-"@,
            _ => h is None,
        },
{
    match partial_size {
        Some(n) => if n > 0 { Some(range_header(n)) } else { None },
        None => None,
    }
}

/// Every registry entry is found by its own id: the ids are distinct.
pub proof fn registry_entries_are_found_by_id()
    ensures
        forall|i: int| 0 <= i < registry_spec().len() ==> lookup_spec((#[trigger] registry_spec()[i]).id@) == Some(registry_spec()[i]),
{
    reveal_strlit("qwen3:0.6b");
    reveal_strlit("qwen3:1.7b");
    reveal_strlit("nomic-embed");
    let r = registry_spec();
    assert(r[0].id@ != r[1].id@) by { assert(r[0].id@[6] != r[1].id@[6]); }
    assert(r[0].id@ != r[2].id@) by { assert(r[0].id@.len() != r[2].id@.len()); }
    assert(r[1].id@ != r[2].id@) by { assert(r[1].id@.len() != r[2].id@.len()); }
    assert(r[0] == registry_spec()[0]);
    lookup_agrees(r[0].id@, r[0]);
    lookup_agrees(r[1].id@, r[1]);
    lookup_agrees(r[2].id@, r[2]);
}

} // verus!

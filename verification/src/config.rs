//! User configuration and its defaults.

use vstd::prelude::*;

verus! {

/// Esprit settings, stored as TOML in the user's configuration directory.
pub struct Config {
    /// Model to use for generation.
    pub ai_model: String,
    /// Ollama service URL.
    pub ollama_url: String,
    /// Root directory of the current workspace.
    pub workspace: String,
    /// Number of worker threads (0 = auto).
    pub threads: usize,
    /// Enable terminal color output.
    pub color: bool,
    /// Maximum characters of file content per file in the answer context.
    pub context_chars_per_file: usize,
    /// Maximum number of files in the answer context.
    pub max_context_files: usize,
}

/// The model used when none is configured.
pub open spec fn default_model() -> Seq<char> {
    "qwen3:1.7b"@
}

/// The Ollama URL used when none is configured.
pub open spec fn default_ollama_url() -> Seq<char> {
    "http://127.0.0.1:11434"@
}

impl Config {
    /// The default settings, given what the environment provides: the
    /// `ESPRIT_MODEL` and `OLLAMA_URL` variables when set, the current
    /// directory, and the available parallelism when known (4 otherwise).
    pub fn with_environment(
        model_env: Option<String>,
        url_env: Option<String>,
        workspace: String,
        parallelism: Option<usize>,
    ) -> (c: Self)
        ensures
            c.ai_model@ == (match model_env { Some(m) => m@, None => default_model() }),
            c.ollama_url@ == (match url_env { Some(u) => u@, None => default_ollama_url() }),
            c.workspace == workspace,
            c.threads == (match parallelism { Some(n) => n, None => 4 }),
            c.color,
            c.context_chars_per_file == 3_500,
            c.max_context_files == 8,
    {
        let ai_model = match model_env {
            Some(m) => m,
            None => "qwen3:1.7b".to_string(),
        };
        let ollama_url = match url_env {
            Some(u) => u,
            None => "http://127.0.0.1:11434".to_string(),
        };
        let threads = match parallelism {
            Some(n) => n,
            None => 4,
        };
        Config {
            ai_model,
            ollama_url,
            workspace,
            threads,
            color: true,
            context_chars_per_file: 3_500,
            max_context_files: 8,
        }
    }

    /// Environment variables take precedence over stored values.
    pub fn apply_environment(&mut self, model_env: Option<String>, url_env: Option<String>)
        ensures
            final(self).ai_model@ == (match model_env { Some(m) => m@, None => old(self).ai_model@ }),
            final(self).ollama_url@ == (match url_env { Some(u) => u@, None => old(self).ollama_url@ }),
            final(self).workspace == old(self).workspace,
            final(self).threads == old(self).threads,
            final(self).color == old(self).color,
            final(self).context_chars_per_file == old(self).context_chars_per_file,
            final(self).max_context_files == old(self).max_context_files,
    {
        match model_env {
            Some(m) => { self.ai_model = m; },
            None => {},
        }
        match url_env {
            Some(u) => { self.ollama_url = u; },
            None => {},
        }
    }

    /// Changes the generation model; every other setting stays as it was.
    pub fn set_model(&mut self, model: String)
        ensures
            final(self).ai_model == model,
            final(self).ollama_url == old(self).ollama_url,
            final(self).workspace == old(self).workspace,
            final(self).threads == old(self).threads,
            final(self).color == old(self).color,
            final(self).context_chars_per_file == old(self).context_chars_per_file,
            final(self).max_context_files == old(self).max_context_files,
    {
        self.ai_model = model;
    }
}

/// The minimal workspace settings of the core crate.
pub struct WorkspaceConfig {
    pub workspace: String,
    pub model: String,
}

impl WorkspaceConfig {
    /// The settings for `workspace` with the default model.
    pub fn for_workspace(workspace: String) -> (c: Self)
        ensures
            c.workspace == workspace,
            c.model@ == default_model(),
    {
        WorkspaceConfig { workspace, model: "qwen3:1.7b".to_string() }
    }
}

/// Runtime tuning of the service.
pub struct Runtime {
    pub workers: usize,
    pub cache_mb: usize,
}

impl Default for Runtime {
    fn default() -> (r: Self)
        ensures
            r.workers == 0 && r.cache_mb == 0,
    {
        Runtime { workers: 0, cache_mb: 0 }
    }
}

/// The runtime settings: the defaults, as nothing is stored yet.
pub fn load() -> (r: Result<Runtime, String>)
    ensures
        r matches Ok(rt) && rt.workers == 0 && rt.cache_mb == 0,
{
    Ok(Runtime::default())
}

} // verus!

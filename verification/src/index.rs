//! The file index: record types, language detection, text extraction rules,
//! workspace identity and the merging of search results.

use vstd::prelude::*;
use vstd::utf8::{valid_utf8, decode_utf8};
use crate::text::{chars_of, str_eq, strictly_sorted, views, insert_sorted_unique, push_char};
use crate::filesystem::{extension, file_extension, hex_of, sha256_spec, content_hash};

verus! {

/// A file recorded in the index.
pub struct IndexedFile {
    pub path: String,
    pub size: u64,
    pub modified: u64,
}

/// Aggregate statistics about the index.
pub struct IndexStats {
    pub file_count: i64,
    pub total_bytes: i64,
}

#[verifier::external_type_specification]
#[verifier::external_body]
pub struct ExSystemTime(std::time::SystemTime);

/// Optional restrictions on search results.
pub struct SearchFilters {
    pub extension: Option<String>,
    pub path_contains: Option<String>,
    pub min_size: Option<u64>,
    pub max_size: Option<u64>,
    pub modified_after: Option<std::time::SystemTime>,
    pub modified_before: Option<std::time::SystemTime>,
}

/// A directed relation between two files.
pub struct FileRelation {
    pub source: String,
    pub target: String,
    pub relation: String,
}

/// How well the index matches the files on disk.
pub struct IndexHealth {
    pub indexed_files: usize,
    pub missing_files: usize,
    pub stale_files: usize,
    pub healthy: bool,
}

impl Default for IndexHealth {
    fn default() -> (h: Self)
        ensures
            h.indexed_files == 0 && h.missing_files == 0 && h.stale_files == 0 && !h.healthy,
    {
        IndexHealth { indexed_files: 0, missing_files: 0, stale_files: 0, healthy: false }
    }
}

/// Why an index operation failed.
#[derive(Debug)]
pub enum IndexError {
    Message(String),
}

/// The engine facade of the core index. Its operations have no work to do
/// yet and always succeed.
pub struct IndexEngine;

impl IndexEngine {
    pub fn new() -> (e: Self) {
        IndexEngine
    }

    pub fn build(&self, root: &str) -> (r: Result<(), IndexError>)
        ensures
            r is Ok,
    {
        Ok(())
    }

    pub fn update(&self, path: &str) -> (r: Result<(), IndexError>)
        ensures
            r is Ok,
    {
        Ok(())
    }

    pub fn remove(&self, path: &str) -> (r: Result<(), IndexError>)
        ensures
            r is Ok,
    {
        Ok(())
    }

    pub fn optimize(&self) -> (r: Result<(), IndexError>)
        ensures
            r is Ok,
    {
        Ok(())
    }
}

impl Default for IndexEngine {
    fn default() -> (e: Self) {
        IndexEngine::new()
    }
}

/// The language a file extension denotes (case-sensitive), or "Unknown".
pub open spec fn language_of_ext(e: Seq<char>) -> Seq<char> {
    if e == "rs"@ { "Rust"@ }
    else if e == "py"@ { "Python"@ }
    else if e == "js"@ || e == "mjs"@ || e == "cjs"@ { "JavaScript"@ }
    else if e == "ts"@ || e == "tsx"@ { "TypeScript"@ }
    else if e == "go"@ { "Go"@ }
    else if e == "java"@ { "Java"@ }
    else if e == "kt"@ { "Kotlin"@ }
    else if e == "c"@ || e == "h"@ { "C"@ }
    else if e == "cpp"@ || e == "cc"@ || e == "cxx"@ || e == "hpp"@ { "C++"@ }
    else if e == "cs"@ { "C#"@ }
    else if e == "rb"@ { "Ruby"@ }
    else if e == "php"@ { "PHP"@ }
    else if e == "swift"@ { "Swift"@ }
    else if e == "scala"@ { "Scala"@ }
    else if e == "toml"@ { "TOML"@ }
    else if e == "json"@ { "JSON"@ }
    else if e == "yaml"@ || e == "yml"@ { "YAML"@ }
    else if e == "md"@ || e == "mdx"@ { "Markdown"@ }
    else if e == "html"@ || e == "htm"@ { "HTML"@ }
    else if e == "css"@ || e == "scss"@ || e == "sass"@ { "CSS"@ }
    else if e == "sh"@ || e == "bash"@ || e == "zsh"@ { "Shell"@ }
    else if e == "sql"@ { "SQL"@ }
    else { "Unknown"@ }
}

/// The language of a file, judged by the extension of its name.
pub open spec fn language_of(file_name: Seq<char>) -> Seq<char> {
    match extension(file_name) {
        Some(e) => language_of_ext(e),
        None => "Unknown"@,
    }
}

fn language_of_extension(e: &str) -> (l: &'static str)
    ensures
        l@ == language_of_ext(e@),
{
    if str_eq(e, "rs") { "Rust" }
    else if str_eq(e, "py") { "Python" }
    else if str_eq(e, "js") || str_eq(e, "mjs") || str_eq(e, "cjs") { "JavaScript" }
    else if str_eq(e, "ts") || str_eq(e, "tsx") { "TypeScript" }
    else if str_eq(e, "go") { "Go" }
    else if str_eq(e, "java") { "Java" }
    else if str_eq(e, "kt") { "Kotlin" }
    else if str_eq(e, "c") || str_eq(e, "h") { "C" }
    else if str_eq(e, "cpp") || str_eq(e, "cc") || str_eq(e, "cxx") || str_eq(e, "hpp") { "C++" }
    else if str_eq(e, "cs") { "C#" }
    else if str_eq(e, "rb") { "Ruby" }
    else if str_eq(e, "php") { "PHP" }
    else if str_eq(e, "swift") { "Swift" }
    else if str_eq(e, "scala") { "Scala" }
    else if str_eq(e, "toml") { "TOML" }
    else if str_eq(e, "json") { "JSON" }
    else if str_eq(e, "yaml") || str_eq(e, "yml") { "YAML" }
    else if str_eq(e, "md") || str_eq(e, "mdx") { "Markdown" }
    else if str_eq(e, "html") || str_eq(e, "htm") { "HTML" }
    else if str_eq(e, "css") || str_eq(e, "scss") || str_eq(e, "sass") { "CSS" }
    else if str_eq(e, "sh") || str_eq(e, "bash") || str_eq(e, "zsh") { "Shell" }
    else if str_eq(e, "sql") { "SQL" }
    else { "Unknown" }
}

/// How many extensions the index knows a language for.
pub open spec fn language_table_len() -> int {
    36
}

/// The `i`-th extension of the language table.
pub open spec fn table_ext(i: int) -> Seq<char> {
    if i == 0 {
        "rs"@
    } else if i == 1 {
        "py"@
    } else if i == 2 {
        "js"@
    } else if i == 3 {
        "mjs"@
    } else if i == 4 {
        "cjs"@
    } else if i == 5 {
        "ts"@
    } else if i == 6 {
        "tsx"@
    } else if i == 7 {
        "go"@
    } else if i == 8 {
        "java"@
    } else if i == 9 {
        "kt"@
    } else if i == 10 {
        "c"@
    } else if i == 11 {
        "h"@
    } else if i == 12 {
        "cpp"@
    } else if i == 13 {
        "cc"@
    } else if i == 14 {
        "cxx"@
    } else if i == 15 {
        "hpp"@
    } else if i == 16 {
        "cs"@
    } else if i == 17 {
        "rb"@
    } else if i == 18 {
        "php"@
    } else if i == 19 {
        "swift"@
    } else if i == 20 {
        "scala"@
    } else if i == 21 {
        "toml"@
    } else if i == 22 {
        "json"@
    } else if i == 23 {
        "yaml"@
    } else if i == 24 {
        "yml"@
    } else if i == 25 {
        "md"@
    } else if i == 26 {
        "mdx"@
    } else if i == 27 {
        "html"@
    } else if i == 28 {
        "htm"@
    } else if i == 29 {
        "css"@
    } else if i == 30 {
        "scss"@
    } else if i == 31 {
        "sass"@
    } else if i == 32 {
        "sh"@
    } else if i == 33 {
        "bash"@
    } else if i == 34 {
        "zsh"@
    } else if i == 35 {
        "sql"@
    } else {
        Seq::empty()
    }
}

/// The language of the `i`-th extension of the language table.
pub open spec fn table_lang(i: int) -> Seq<char> {
    if i == 0 {
        "Rust"@
    } else if i == 1 {
        "Python"@
    } else if i == 2 {
        "JavaScript"@
    } else if i == 3 {
        "JavaScript"@
    } else if i == 4 {
        "JavaScript"@
    } else if i == 5 {
        "TypeScript"@
    } else if i == 6 {
        "TypeScript"@
    } else if i == 7 {
        "Go"@
    } else if i == 8 {
        "Java"@
    } else if i == 9 {
        "Kotlin"@
    } else if i == 10 {
        "C"@
    } else if i == 11 {
        "C"@
    } else if i == 12 {
        "C++"@
    } else if i == 13 {
        "C++"@
    } else if i == 14 {
        "C++"@
    } else if i == 15 {
        "C++"@
    } else if i == 16 {
        "C#"@
    } else if i == 17 {
        "Ruby"@
    } else if i == 18 {
        "PHP"@
    } else if i == 19 {
        "Swift"@
    } else if i == 20 {
        "Scala"@
    } else if i == 21 {
        "TOML"@
    } else if i == 22 {
        "JSON"@
    } else if i == 23 {
        "YAML"@
    } else if i == 24 {
        "YAML"@
    } else if i == 25 {
        "Markdown"@
    } else if i == 26 {
        "Markdown"@
    } else if i == 27 {
        "HTML"@
    } else if i == 28 {
        "HTML"@
    } else if i == 29 {
        "CSS"@
    } else if i == 30 {
        "CSS"@
    } else if i == 31 {
        "CSS"@
    } else if i == 32 {
        "Shell"@
    } else if i == 33 {
        "Shell"@
    } else if i == 34 {
        "Shell"@
    } else if i == 35 {
        "SQL"@
    } else {
        Seq::empty()
    }
}

/// The `i`-th extension of the table has the `i`-th language.
proof fn table_lookup(i: int)
    requires
        0 <= i < language_table_len(),
    ensures
        language_of_ext(table_ext(i)) == table_lang(i),
{
    reveal_strlit("rs");
    reveal_strlit("py");
    reveal_strlit("js");
    reveal_strlit("mjs");
    reveal_strlit("cjs");
    reveal_strlit("ts");
    reveal_strlit("tsx");
    reveal_strlit("go");
    reveal_strlit("java");
    reveal_strlit("kt");
    reveal_strlit("c");
    reveal_strlit("h");
    reveal_strlit("cpp");
    reveal_strlit("cc");
    reveal_strlit("cxx");
    reveal_strlit("hpp");
    reveal_strlit("cs");
    reveal_strlit("rb");
    reveal_strlit("php");
    reveal_strlit("swift");
    reveal_strlit("scala");
    reveal_strlit("toml");
    reveal_strlit("json");
    reveal_strlit("yaml");
    reveal_strlit("yml");
    reveal_strlit("md");
    reveal_strlit("mdx");
    reveal_strlit("html");
    reveal_strlit("htm");
    reveal_strlit("css");
    reveal_strlit("scss");
    reveal_strlit("sass");
    reveal_strlit("sh");
    reveal_strlit("bash");
    reveal_strlit("zsh");
    reveal_strlit("sql");
    if i == 0 {
            
        } else if i == 1 {
            assert("py"@[0] != "rs"@[0]);
        } else if i == 2 {
            assert("js"@[0] != "rs"@[0]);
            assert("js"@[0] != "py"@[0]);
        } else if i == 3 {
            assert("mjs"@.len() != "rs"@.len());
            assert("mjs"@.len() != "py"@.len());
            assert("mjs"@.len() != "js"@.len());
        } else if i == 4 {
            assert("cjs"@.len() != "rs"@.len());
            assert("cjs"@.len() != "py"@.len());
            assert("cjs"@.len() != "js"@.len());
            assert("cjs"@[0] != "mjs"@[0]);
        } else if i == 5 {
            assert("ts"@[0] != "rs"@[0]);
            assert("ts"@[0] != "py"@[0]);
            assert("ts"@[0] != "js"@[0]);
            assert("ts"@.len() != "mjs"@.len());
            assert("ts"@.len() != "cjs"@.len());
        } else if i == 6 {
            assert("tsx"@.len() != "rs"@.len());
            assert("tsx"@.len() != "py"@.len());
            assert("tsx"@.len() != "js"@.len());
            assert("tsx"@[0] != "mjs"@[0]);
            assert("tsx"@[0] != "cjs"@[0]);
            assert("tsx"@.len() != "ts"@.len());
        } else if i == 7 {
            assert("go"@[0] != "rs"@[0]);
            assert("go"@[0] != "py"@[0]);
            assert("go"@[0] != "js"@[0]);
            assert("go"@.len() != "mjs"@.len());
            assert("go"@.len() != "cjs"@.len());
            assert("go"@[0] != "ts"@[0]);
            assert("go"@.len() != "tsx"@.len());
        } else if i == 8 {
            assert("java"@.len() != "rs"@.len());
            assert("java"@.len() != "py"@.len());
            assert("java"@.len() != "js"@.len());
            assert("java"@.len() != "mjs"@.len());
            assert("java"@.len() != "cjs"@.len());
            assert("java"@.len() != "ts"@.len());
            assert("java"@.len() != "tsx"@.len());
            assert("java"@.len() != "go"@.len());
        } else if i == 9 {
            assert("kt"@[0] != "rs"@[0]);
            assert("kt"@[0] != "py"@[0]);
            assert("kt"@[0] != "js"@[0]);
            assert("kt"@.len() != "mjs"@.len());
            assert("kt"@.len() != "cjs"@.len());
            assert("kt"@[0] != "ts"@[0]);
            assert("kt"@.len() != "tsx"@.len());
            assert("kt"@[0] != "go"@[0]);
            assert("kt"@.len() != "java"@.len());
        } else if i == 10 {
            assert("c"@.len() != "rs"@.len());
            assert("c"@.len() != "py"@.len());
            assert("c"@.len() != "js"@.len());
            assert("c"@.len() != "mjs"@.len());
            assert("c"@.len() != "cjs"@.len());
            assert("c"@.len() != "ts"@.len());
            assert("c"@.len() != "tsx"@.len());
            assert("c"@.len() != "go"@.len());
            assert("c"@.len() != "java"@.len());
            assert("c"@.len() != "kt"@.len());
        } else if i == 11 {
            assert("h"@.len() != "rs"@.len());
            assert("h"@.len() != "py"@.len());
            assert("h"@.len() != "js"@.len());
            assert("h"@.len() != "mjs"@.len());
            assert("h"@.len() != "cjs"@.len());
            assert("h"@.len() != "ts"@.len());
            assert("h"@.len() != "tsx"@.len());
            assert("h"@.len() != "go"@.len());
            assert("h"@.len() != "java"@.len());
            assert("h"@.len() != "kt"@.len());
            assert("h"@[0] != "c"@[0]);
        } else if i == 12 {
            assert("cpp"@.len() != "rs"@.len());
            assert("cpp"@.len() != "py"@.len());
            assert("cpp"@.len() != "js"@.len());
            assert("cpp"@[0] != "mjs"@[0]);
            assert("cpp"@[1] != "cjs"@[1]);
            assert("cpp"@.len() != "ts"@.len());
            assert("cpp"@[0] != "tsx"@[0]);
            assert("cpp"@.len() != "go"@.len());
            assert("cpp"@.len() != "java"@.len());
            assert("cpp"@.len() != "kt"@.len());
            assert("cpp"@.len() != "c"@.len());
            assert("cpp"@.len() != "h"@.len());
        } else if i == 13 {
            assert("cc"@[0] != "rs"@[0]);
            assert("cc"@[0] != "py"@[0]);
            assert("cc"@[0] != "js"@[0]);
            assert("cc"@.len() != "mjs"@.len());
            assert("cc"@.len() != "cjs"@.len());
            assert("cc"@[0] != "ts"@[0]);
            assert("cc"@.len() != "tsx"@.len());
            assert("cc"@[0] != "go"@[0]);
            assert("cc"@.len() != "java"@.len());
            assert("cc"@[0] != "kt"@[0]);
            assert("cc"@.len() != "c"@.len());
            assert("cc"@.len() != "h"@.len());
            assert("cc"@.len() != "cpp"@.len());
        } else if i == 14 {
            assert("cxx"@.len() != "rs"@.len());
            assert("cxx"@.len() != "py"@.len());
            assert("cxx"@.len() != "js"@.len());
            assert("cxx"@[0] != "mjs"@[0]);
            assert("cxx"@[1] != "cjs"@[1]);
            assert("cxx"@.len() != "ts"@.len());
            assert("cxx"@[0] != "tsx"@[0]);
            assert("cxx"@.len() != "go"@.len());
            assert("cxx"@.len() != "java"@.len());
            assert("cxx"@.len() != "kt"@.len());
            assert("cxx"@.len() != "c"@.len());
            assert("cxx"@.len() != "h"@.len());
            assert("cxx"@[1] != "cpp"@[1]);
            assert("cxx"@.len() != "cc"@.len());
        } else if i == 15 {
            assert("hpp"@.len() != "rs"@.len());
            assert("hpp"@.len() != "py"@.len());
            assert("hpp"@.len() != "js"@.len());
            assert("hpp"@[0] != "mjs"@[0]);
            assert("hpp"@[0] != "cjs"@[0]);
            assert("hpp"@.len() != "ts"@.len());
            assert("hpp"@[0] != "tsx"@[0]);
            assert("hpp"@.len() != "go"@.len());
            assert("hpp"@.len() != "java"@.len());
            assert("hpp"@.len() != "kt"@.len());
            assert("hpp"@.len() != "c"@.len());
            assert("hpp"@.len() != "h"@.len());
            assert("hpp"@[0] != "cpp"@[0]);
            assert("hpp"@.len() != "cc"@.len());
            assert("hpp"@[0] != "cxx"@[0]);
        } else if i == 16 {
            assert("cs"@[0] != "rs"@[0]);
            assert("cs"@[0] != "py"@[0]);
            assert("cs"@[0] != "js"@[0]);
            assert("cs"@.len() != "mjs"@.len());
            assert("cs"@.len() != "cjs"@.len());
            assert("cs"@[0] != "ts"@[0]);
            assert("cs"@.len() != "tsx"@.len());
            assert("cs"@[0] != "go"@[0]);
            assert("cs"@.len() != "java"@.len());
            assert("cs"@[0] != "kt"@[0]);
            assert("cs"@.len() != "c"@.len());
            assert("cs"@.len() != "h"@.len());
            assert("cs"@.len() != "cpp"@.len());
            assert("cs"@[1] != "cc"@[1]);
            assert("cs"@.len() != "cxx"@.len());
            assert("cs"@.len() != "hpp"@.len());
        } else if i == 17 {
            assert("rb"@[1] != "rs"@[1]);
            assert("rb"@[0] != "py"@[0]);
            assert("rb"@[0] != "js"@[0]);
            assert("rb"@.len() != "mjs"@.len());
            assert("rb"@.len() != "cjs"@.len());
            assert("rb"@[0] != "ts"@[0]);
            assert("rb"@.len() != "tsx"@.len());
            assert("rb"@[0] != "go"@[0]);
            assert("rb"@.len() != "java"@.len());
            assert("rb"@[0] != "kt"@[0]);
            assert("rb"@.len() != "c"@.len());
            assert("rb"@.len() != "h"@.len());
            assert("rb"@.len() != "cpp"@.len());
            assert("rb"@[0] != "cc"@[0]);
            assert("rb"@.len() != "cxx"@.len());
            assert("rb"@.len() != "hpp"@.len());
            assert("rb"@[0] != "cs"@[0]);
        } else if i == 18 {
            assert("php"@.len() != "rs"@.len());
            assert("php"@.len() != "py"@.len());
            assert("php"@.len() != "js"@.len());
            assert("php"@[0] != "mjs"@[0]);
            assert("php"@[0] != "cjs"@[0]);
            assert("php"@.len() != "ts"@.len());
            assert("php"@[0] != "tsx"@[0]);
            assert("php"@.len() != "go"@.len());
            assert("php"@.len() != "java"@.len());
            assert("php"@.len() != "kt"@.len());
            assert("php"@.len() != "c"@.len());
            assert("php"@.len() != "h"@.len());
            assert("php"@[0] != "cpp"@[0]);
            assert("php"@.len() != "cc"@.len());
            assert("php"@[0] != "cxx"@[0]);
            assert("php"@[0] != "hpp"@[0]);
            assert("php"@.len() != "cs"@.len());
            assert("php"@.len() != "rb"@.len());
        } else if i == 19 {
            assert("swift"@.len() != "rs"@.len());
            assert("swift"@.len() != "py"@.len());
            assert("swift"@.len() != "js"@.len());
            assert("swift"@.len() != "mjs"@.len());
            assert("swift"@.len() != "cjs"@.len());
            assert("swift"@.len() != "ts"@.len());
            assert("swift"@.len() != "tsx"@.len());
            assert("swift"@.len() != "go"@.len());
            assert("swift"@.len() != "java"@.len());
            assert("swift"@.len() != "kt"@.len());
            assert("swift"@.len() != "c"@.len());
            assert("swift"@.len() != "h"@.len());
            assert("swift"@.len() != "cpp"@.len());
            assert("swift"@.len() != "cc"@.len());
            assert("swift"@.len() != "cxx"@.len());
            assert("swift"@.len() != "hpp"@.len());
            assert("swift"@.len() != "cs"@.len());
            assert("swift"@.len() != "rb"@.len());
            assert("swift"@.len() != "php"@.len());
        } else if i == 20 {
            assert("scala"@.len() != "rs"@.len());
            assert("scala"@.len() != "py"@.len());
            assert("scala"@.len() != "js"@.len());
            assert("scala"@.len() != "mjs"@.len());
            assert("scala"@.len() != "cjs"@.len());
            assert("scala"@.len() != "ts"@.len());
            assert("scala"@.len() != "tsx"@.len());
            assert("scala"@.len() != "go"@.len());
            assert("scala"@.len() != "java"@.len());
            assert("scala"@.len() != "kt"@.len());
            assert("scala"@.len() != "c"@.len());
            assert("scala"@.len() != "h"@.len());
            assert("scala"@.len() != "cpp"@.len());
            assert("scala"@.len() != "cc"@.len());
            assert("scala"@.len() != "cxx"@.len());
            assert("scala"@.len() != "hpp"@.len());
            assert("scala"@.len() != "cs"@.len());
            assert("scala"@.len() != "rb"@.len());
            assert("scala"@.len() != "php"@.len());
            assert("scala"@[1] != "swift"@[1]);
        } else if i == 21 {
            assert("toml"@.len() != "rs"@.len());
            assert("toml"@.len() != "py"@.len());
            assert("toml"@.len() != "js"@.len());
            assert("toml"@.len() != "mjs"@.len());
            assert("toml"@.len() != "cjs"@.len());
            assert("toml"@.len() != "ts"@.len());
            assert("toml"@.len() != "tsx"@.len());
            assert("toml"@.len() != "go"@.len());
            assert("toml"@[0] != "java"@[0]);
            assert("toml"@.len() != "kt"@.len());
            assert("toml"@.len() != "c"@.len());
            assert("toml"@.len() != "h"@.len());
            assert("toml"@.len() != "cpp"@.len());
            assert("toml"@.len() != "cc"@.len());
            assert("toml"@.len() != "cxx"@.len());
            assert("toml"@.len() != "hpp"@.len());
            assert("toml"@.len() != "cs"@.len());
            assert("toml"@.len() != "rb"@.len());
            assert("toml"@.len() != "php"@.len());
            assert("toml"@.len() != "swift"@.len());
            assert("toml"@.len() != "scala"@.len());
        } else if i == 22 {
            assert("json"@.len() != "rs"@.len());
            assert("json"@.len() != "py"@.len());
            assert("json"@.len() != "js"@.len());
            assert("json"@.len() != "mjs"@.len());
            assert("json"@.len() != "cjs"@.len());
            assert("json"@.len() != "ts"@.len());
            assert("json"@.len() != "tsx"@.len());
            assert("json"@.len() != "go"@.len());
            assert("json"@[1] != "java"@[1]);
            assert("json"@.len() != "kt"@.len());
            assert("json"@.len() != "c"@.len());
            assert("json"@.len() != "h"@.len());
            assert("json"@.len() != "cpp"@.len());
            assert("json"@.len() != "cc"@.len());
            assert("json"@.len() != "cxx"@.len());
            assert("json"@.len() != "hpp"@.len());
            assert("json"@.len() != "cs"@.len());
            assert("json"@.len() != "rb"@.len());
            assert("json"@.len() != "php"@.len());
            assert("json"@.len() != "swift"@.len());
            assert("json"@.len() != "scala"@.len());
            assert("json"@[0] != "toml"@[0]);
        } else if i == 23 {
            assert("yaml"@.len() != "rs"@.len());
            assert("yaml"@.len() != "py"@.len());
            assert("yaml"@.len() != "js"@.len());
            assert("yaml"@.len() != "mjs"@.len());
            assert("yaml"@.len() != "cjs"@.len());
            assert("yaml"@.len() != "ts"@.len());
            assert("yaml"@.len() != "tsx"@.len());
            assert("yaml"@.len() != "go"@.len());
            assert("yaml"@[0] != "java"@[0]);
            assert("yaml"@.len() != "kt"@.len());
            assert("yaml"@.len() != "c"@.len());
            assert("yaml"@.len() != "h"@.len());
            assert("yaml"@.len() != "cpp"@.len());
            assert("yaml"@.len() != "cc"@.len());
            assert("yaml"@.len() != "cxx"@.len());
            assert("yaml"@.len() != "hpp"@.len());
            assert("yaml"@.len() != "cs"@.len());
            assert("yaml"@.len() != "rb"@.len());
            assert("yaml"@.len() != "php"@.len());
            assert("yaml"@.len() != "swift"@.len());
            assert("yaml"@.len() != "scala"@.len());
            assert("yaml"@[0] != "toml"@[0]);
            assert("yaml"@[0] != "json"@[0]);
        } else if i == 24 {
            assert("yml"@.len() != "rs"@.len());
            assert("yml"@.len() != "py"@.len());
            assert("yml"@.len() != "js"@.len());
            assert("yml"@[0] != "mjs"@[0]);
            assert("yml"@[0] != "cjs"@[0]);
            assert("yml"@.len() != "ts"@.len());
            assert("yml"@[0] != "tsx"@[0]);
            assert("yml"@.len() != "go"@.len());
            assert("yml"@.len() != "java"@.len());
            assert("yml"@.len() != "kt"@.len());
            assert("yml"@.len() != "c"@.len());
            assert("yml"@.len() != "h"@.len());
            assert("yml"@[0] != "cpp"@[0]);
            assert("yml"@.len() != "cc"@.len());
            assert("yml"@[0] != "cxx"@[0]);
            assert("yml"@[0] != "hpp"@[0]);
            assert("yml"@.len() != "cs"@.len());
            assert("yml"@.len() != "rb"@.len());
            assert("yml"@[0] != "php"@[0]);
            assert("yml"@.len() != "swift"@.len());
            assert("yml"@.len() != "scala"@.len());
            assert("yml"@.len() != "toml"@.len());
            assert("yml"@.len() != "json"@.len());
            assert("yml"@.len() != "yaml"@.len());
        } else if i == 25 {
            assert("md"@[0] != "rs"@[0]);
            assert("md"@[0] != "py"@[0]);
            assert("md"@[0] != "js"@[0]);
            assert("md"@.len() != "mjs"@.len());
            assert("md"@.len() != "cjs"@.len());
            assert("md"@[0] != "ts"@[0]);
            assert("md"@.len() != "tsx"@.len());
            assert("md"@[0] != "go"@[0]);
            assert("md"@.len() != "java"@.len());
            assert("md"@[0] != "kt"@[0]);
            assert("md"@.len() != "c"@.len());
            assert("md"@.len() != "h"@.len());
            assert("md"@.len() != "cpp"@.len());
            assert("md"@[0] != "cc"@[0]);
            assert("md"@.len() != "cxx"@.len());
            assert("md"@.len() != "hpp"@.len());
            assert("md"@[0] != "cs"@[0]);
            assert("md"@[0] != "rb"@[0]);
            assert("md"@.len() != "php"@.len());
            assert("md"@.len() != "swift"@.len());
            assert("md"@.len() != "scala"@.len());
            assert("md"@.len() != "toml"@.len());
            assert("md"@.len() != "json"@.len());
            assert("md"@.len() != "yaml"@.len());
            assert("md"@.len() != "yml"@.len());
        } else if i == 26 {
            assert("mdx"@.len() != "rs"@.len());
            assert("mdx"@.len() != "py"@.len());
            assert("mdx"@.len() != "js"@.len());
            assert("mdx"@[1] != "mjs"@[1]);
            assert("mdx"@[0] != "cjs"@[0]);
            assert("mdx"@.len() != "ts"@.len());
            assert("mdx"@[0] != "tsx"@[0]);
            assert("mdx"@.len() != "go"@.len());
            assert("mdx"@.len() != "java"@.len());
            assert("mdx"@.len() != "kt"@.len());
            assert("mdx"@.len() != "c"@.len());
            assert("mdx"@.len() != "h"@.len());
            assert("mdx"@[0] != "cpp"@[0]);
            assert("mdx"@.len() != "cc"@.len());
            assert("mdx"@[0] != "cxx"@[0]);
            assert("mdx"@[0] != "hpp"@[0]);
            assert("mdx"@.len() != "cs"@.len());
            assert("mdx"@.len() != "rb"@.len());
            assert("mdx"@[0] != "php"@[0]);
            assert("mdx"@.len() != "swift"@.len());
            assert("mdx"@.len() != "scala"@.len());
            assert("mdx"@.len() != "toml"@.len());
            assert("mdx"@.len() != "json"@.len());
            assert("mdx"@.len() != "yaml"@.len());
            assert("mdx"@[0] != "yml"@[0]);
            assert("mdx"@.len() != "md"@.len());
        } else if i == 27 {
            assert("html"@.len() != "rs"@.len());
            assert("html"@.len() != "py"@.len());
            assert("html"@.len() != "js"@.len());
            assert("html"@.len() != "mjs"@.len());
            assert("html"@.len() != "cjs"@.len());
            assert("html"@.len() != "ts"@.len());
            assert("html"@.len() != "tsx"@.len());
            assert("html"@.len() != "go"@.len());
            assert("html"@[0] != "java"@[0]);
            assert("html"@.len() != "kt"@.len());
            assert("html"@.len() != "c"@.len());
            assert("html"@.len() != "h"@.len());
            assert("html"@.len() != "cpp"@.len());
            assert("html"@.len() != "cc"@.len());
            assert("html"@.len() != "cxx"@.len());
            assert("html"@.len() != "hpp"@.len());
            assert("html"@.len() != "cs"@.len());
            assert("html"@.len() != "rb"@.len());
            assert("html"@.len() != "php"@.len());
            assert("html"@.len() != "swift"@.len());
            assert("html"@.len() != "scala"@.len());
            assert("html"@[0] != "toml"@[0]);
            assert("html"@[0] != "json"@[0]);
            assert("html"@[0] != "yaml"@[0]);
            assert("html"@.len() != "yml"@.len());
            assert("html"@.len() != "md"@.len());
            assert("html"@.len() != "mdx"@.len());
        } else if i == 28 {
            assert("htm"@.len() != "rs"@.len());
            assert("htm"@.len() != "py"@.len());
            assert("htm"@.len() != "js"@.len());
            assert("htm"@[0] != "mjs"@[0]);
            assert("htm"@[0] != "cjs"@[0]);
            assert("htm"@.len() != "ts"@.len());
            assert("htm"@[0] != "tsx"@[0]);
            assert("htm"@.len() != "go"@.len());
            assert("htm"@.len() != "java"@.len());
            assert("htm"@.len() != "kt"@.len());
            assert("htm"@.len() != "c"@.len());
            assert("htm"@.len() != "h"@.len());
            assert("htm"@[0] != "cpp"@[0]);
            assert("htm"@.len() != "cc"@.len());
            assert("htm"@[0] != "cxx"@[0]);
            assert("htm"@[1] != "hpp"@[1]);
            assert("htm"@.len() != "cs"@.len());
            assert("htm"@.len() != "rb"@.len());
            assert("htm"@[0] != "php"@[0]);
            assert("htm"@.len() != "swift"@.len());
            assert("htm"@.len() != "scala"@.len());
            assert("htm"@.len() != "toml"@.len());
            assert("htm"@.len() != "json"@.len());
            assert("htm"@.len() != "yaml"@.len());
            assert("htm"@[0] != "yml"@[0]);
            assert("htm"@.len() != "md"@.len());
            assert("htm"@[0] != "mdx"@[0]);
            assert("htm"@.len() != "html"@.len());
        } else if i == 29 {
            assert("css"@.len() != "rs"@.len());
            assert("css"@.len() != "py"@.len());
            assert("css"@.len() != "js"@.len());
            assert("css"@[0] != "mjs"@[0]);
            assert("css"@[1] != "cjs"@[1]);
            assert("css"@.len() != "ts"@.len());
            assert("css"@[0] != "tsx"@[0]);
            assert("css"@.len() != "go"@.len());
            assert("css"@.len() != "java"@.len());
            assert("css"@.len() != "kt"@.len());
            assert("css"@.len() != "c"@.len());
            assert("css"@.len() != "h"@.len());
            assert("css"@[1] != "cpp"@[1]);
            assert("css"@.len() != "cc"@.len());
            assert("css"@[1] != "cxx"@[1]);
            assert("css"@[0] != "hpp"@[0]);
            assert("css"@.len() != "cs"@.len());
            assert("css"@.len() != "rb"@.len());
            assert("css"@[0] != "php"@[0]);
            assert("css"@.len() != "swift"@.len());
            assert("css"@.len() != "scala"@.len());
            assert("css"@.len() != "toml"@.len());
            assert("css"@.len() != "json"@.len());
            assert("css"@.len() != "yaml"@.len());
            assert("css"@[0] != "yml"@[0]);
            assert("css"@.len() != "md"@.len());
            assert("css"@[0] != "mdx"@[0]);
            assert("css"@.len() != "html"@.len());
            assert("css"@[0] != "htm"@[0]);
        } else if i == 30 {
            assert("scss"@.len() != "rs"@.len());
            assert("scss"@.len() != "py"@.len());
            assert("scss"@.len() != "js"@.len());
            assert("scss"@.len() != "mjs"@.len());
            assert("scss"@.len() != "cjs"@.len());
            assert("scss"@.len() != "ts"@.len());
            assert("scss"@.len() != "tsx"@.len());
            assert("scss"@.len() != "go"@.len());
            assert("scss"@[0] != "java"@[0]);
            assert("scss"@.len() != "kt"@.len());
            assert("scss"@.len() != "c"@.len());
            assert("scss"@.len() != "h"@.len());
            assert("scss"@.len() != "cpp"@.len());
            assert("scss"@.len() != "cc"@.len());
            assert("scss"@.len() != "cxx"@.len());
            assert("scss"@.len() != "hpp"@.len());
            assert("scss"@.len() != "cs"@.len());
            assert("scss"@.len() != "rb"@.len());
            assert("scss"@.len() != "php"@.len());
            assert("scss"@.len() != "swift"@.len());
            assert("scss"@.len() != "scala"@.len());
            assert("scss"@[0] != "toml"@[0]);
            assert("scss"@[0] != "json"@[0]);
            assert("scss"@[0] != "yaml"@[0]);
            assert("scss"@.len() != "yml"@.len());
            assert("scss"@.len() != "md"@.len());
            assert("scss"@.len() != "mdx"@.len());
            assert("scss"@[0] != "html"@[0]);
            assert("scss"@.len() != "htm"@.len());
            assert("scss"@.len() != "css"@.len());
        } else if i == 31 {
            assert("sass"@.len() != "rs"@.len());
            assert("sass"@.len() != "py"@.len());
            assert("sass"@.len() != "js"@.len());
            assert("sass"@.len() != "mjs"@.len());
            assert("sass"@.len() != "cjs"@.len());
            assert("sass"@.len() != "ts"@.len());
            assert("sass"@.len() != "tsx"@.len());
            assert("sass"@.len() != "go"@.len());
            assert("sass"@[0] != "java"@[0]);
            assert("sass"@.len() != "kt"@.len());
            assert("sass"@.len() != "c"@.len());
            assert("sass"@.len() != "h"@.len());
            assert("sass"@.len() != "cpp"@.len());
            assert("sass"@.len() != "cc"@.len());
            assert("sass"@.len() != "cxx"@.len());
            assert("sass"@.len() != "hpp"@.len());
            assert("sass"@.len() != "cs"@.len());
            assert("sass"@.len() != "rb"@.len());
            assert("sass"@.len() != "php"@.len());
            assert("sass"@.len() != "swift"@.len());
            assert("sass"@.len() != "scala"@.len());
            assert("sass"@[0] != "toml"@[0]);
            assert("sass"@[0] != "json"@[0]);
            assert("sass"@[0] != "yaml"@[0]);
            assert("sass"@.len() != "yml"@.len());
            assert("sass"@.len() != "md"@.len());
            assert("sass"@.len() != "mdx"@.len());
            assert("sass"@[0] != "html"@[0]);
            assert("sass"@.len() != "htm"@.len());
            assert("sass"@.len() != "css"@.len());
            assert("sass"@[1] != "scss"@[1]);
        } else if i == 32 {
            assert("sh"@[0] != "rs"@[0]);
            assert("sh"@[0] != "py"@[0]);
            assert("sh"@[0] != "js"@[0]);
            assert("sh"@.len() != "mjs"@.len());
            assert("sh"@.len() != "cjs"@.len());
            assert("sh"@[0] != "ts"@[0]);
            assert("sh"@.len() != "tsx"@.len());
            assert("sh"@[0] != "go"@[0]);
            assert("sh"@.len() != "java"@.len());
            assert("sh"@[0] != "kt"@[0]);
            assert("sh"@.len() != "c"@.len());
            assert("sh"@.len() != "h"@.len());
            assert("sh"@.len() != "cpp"@.len());
            assert("sh"@[0] != "cc"@[0]);
            assert("sh"@.len() != "cxx"@.len());
            assert("sh"@.len() != "hpp"@.len());
            assert("sh"@[0] != "cs"@[0]);
            assert("sh"@[0] != "rb"@[0]);
            assert("sh"@.len() != "php"@.len());
            assert("sh"@.len() != "swift"@.len());
            assert("sh"@.len() != "scala"@.len());
            assert("sh"@.len() != "toml"@.len());
            assert("sh"@.len() != "json"@.len());
            assert("sh"@.len() != "yaml"@.len());
            assert("sh"@.len() != "yml"@.len());
            assert("sh"@[0] != "md"@[0]);
            assert("sh"@.len() != "mdx"@.len());
            assert("sh"@.len() != "html"@.len());
            assert("sh"@.len() != "htm"@.len());
            assert("sh"@.len() != "css"@.len());
            assert("sh"@.len() != "scss"@.len());
            assert("sh"@.len() != "sass"@.len());
        } else if i == 33 {
            assert("bash"@.len() != "rs"@.len());
            assert("bash"@.len() != "py"@.len());
            assert("bash"@.len() != "js"@.len());
            assert("bash"@.len() != "mjs"@.len());
            assert("bash"@.len() != "cjs"@.len());
            assert("bash"@.len() != "ts"@.len());
            assert("bash"@.len() != "tsx"@.len());
            assert("bash"@.len() != "go"@.len());
            assert("bash"@[0] != "java"@[0]);
            assert("bash"@.len() != "kt"@.len());
            assert("bash"@.len() != "c"@.len());
            assert("bash"@.len() != "h"@.len());
            assert("bash"@.len() != "cpp"@.len());
            assert("bash"@.len() != "cc"@.len());
            assert("bash"@.len() != "cxx"@.len());
            assert("bash"@.len() != "hpp"@.len());
            assert("bash"@.len() != "cs"@.len());
            assert("bash"@.len() != "rb"@.len());
            assert("bash"@.len() != "php"@.len());
            assert("bash"@.len() != "swift"@.len());
            assert("bash"@.len() != "scala"@.len());
            assert("bash"@[0] != "toml"@[0]);
            assert("bash"@[0] != "json"@[0]);
            assert("bash"@[0] != "yaml"@[0]);
            assert("bash"@.len() != "yml"@.len());
            assert("bash"@.len() != "md"@.len());
            assert("bash"@.len() != "mdx"@.len());
            assert("bash"@[0] != "html"@[0]);
            assert("bash"@.len() != "htm"@.len());
            assert("bash"@.len() != "css"@.len());
            assert("bash"@[0] != "scss"@[0]);
            assert("bash"@[0] != "sass"@[0]);
            assert("bash"@.len() != "sh"@.len());
        } else if i == 34 {
            assert("zsh"@.len() != "rs"@.len());
            assert("zsh"@.len() != "py"@.len());
            assert("zsh"@.len() != "js"@.len());
            assert("zsh"@[0] != "mjs"@[0]);
            assert("zsh"@[0] != "cjs"@[0]);
            assert("zsh"@.len() != "ts"@.len());
            assert("zsh"@[0] != "tsx"@[0]);
            assert("zsh"@.len() != "go"@.len());
            assert("zsh"@.len() != "java"@.len());
            assert("zsh"@.len() != "kt"@.len());
            assert("zsh"@.len() != "c"@.len());
            assert("zsh"@.len() != "h"@.len());
            assert("zsh"@[0] != "cpp"@[0]);
            assert("zsh"@.len() != "cc"@.len());
            assert("zsh"@[0] != "cxx"@[0]);
            assert("zsh"@[0] != "hpp"@[0]);
            assert("zsh"@.len() != "cs"@.len());
            assert("zsh"@.len() != "rb"@.len());
            assert("zsh"@[0] != "php"@[0]);
            assert("zsh"@.len() != "swift"@.len());
            assert("zsh"@.len() != "scala"@.len());
            assert("zsh"@.len() != "toml"@.len());
            assert("zsh"@.len() != "json"@.len());
            assert("zsh"@.len() != "yaml"@.len());
            assert("zsh"@[0] != "yml"@[0]);
            assert("zsh"@.len() != "md"@.len());
            assert("zsh"@[0] != "mdx"@[0]);
            assert("zsh"@.len() != "html"@.len());
            assert("zsh"@[0] != "htm"@[0]);
            assert("zsh"@[0] != "css"@[0]);
            assert("zsh"@.len() != "scss"@.len());
            assert("zsh"@.len() != "sass"@.len());
            assert("zsh"@.len() != "sh"@.len());
            assert("zsh"@.len() != "bash"@.len());
        } else if i == 35 {
            assert("sql"@.len() != "rs"@.len());
            assert("sql"@.len() != "py"@.len());
            assert("sql"@.len() != "js"@.len());
            assert("sql"@[0] != "mjs"@[0]);
            assert("sql"@[0] != "cjs"@[0]);
            assert("sql"@.len() != "ts"@.len());
            assert("sql"@[0] != "tsx"@[0]);
            assert("sql"@.len() != "go"@.len());
            assert("sql"@.len() != "java"@.len());
            assert("sql"@.len() != "kt"@.len());
            assert("sql"@.len() != "c"@.len());
            assert("sql"@.len() != "h"@.len());
            assert("sql"@[0] != "cpp"@[0]);
            assert("sql"@.len() != "cc"@.len());
            assert("sql"@[0] != "cxx"@[0]);
            assert("sql"@[0] != "hpp"@[0]);
            assert("sql"@.len() != "cs"@.len());
            assert("sql"@.len() != "rb"@.len());
            assert("sql"@[0] != "php"@[0]);
            assert("sql"@.len() != "swift"@.len());
            assert("sql"@.len() != "scala"@.len());
            assert("sql"@.len() != "toml"@.len());
            assert("sql"@.len() != "json"@.len());
            assert("sql"@.len() != "yaml"@.len());
            assert("sql"@[0] != "yml"@[0]);
            assert("sql"@.len() != "md"@.len());
            assert("sql"@[0] != "mdx"@[0]);
            assert("sql"@.len() != "html"@.len());
            assert("sql"@[0] != "htm"@[0]);
            assert("sql"@[0] != "css"@[0]);
            assert("sql"@.len() != "scss"@.len());
            assert("sql"@.len() != "sass"@.len());
            assert("sql"@.len() != "sh"@.len());
            assert("sql"@.len() != "bash"@.len());
            assert("sql"@[0] != "zsh"@[0]);
        }
}

/// A file's language is read off its extension: a file whose extension is
/// the `i`-th of the language table has the `i`-th language, and every
/// other file, with another extension or none, is `Unknown`.
pub proof fn languages_follow_the_table(file_name: Seq<char>)
    ensures
        forall|i: int| 0 <= i < language_table_len() && extension(file_name) == Some(#[trigger] table_ext(i))
            ==> language_of(file_name) == table_lang(i),
        (forall|i: int| 0 <= i < language_table_len() ==> extension(file_name) != Some(#[trigger] table_ext(i)))
            ==> language_of(file_name) == "Unknown"@,
{
    reveal_strlit("rs");
    reveal_strlit("py");
    reveal_strlit("js");
    reveal_strlit("mjs");
    reveal_strlit("cjs");
    reveal_strlit("ts");
    reveal_strlit("tsx");
    reveal_strlit("go");
    reveal_strlit("java");
    reveal_strlit("kt");
    reveal_strlit("c");
    reveal_strlit("h");
    reveal_strlit("cpp");
    reveal_strlit("cc");
    reveal_strlit("cxx");
    reveal_strlit("hpp");
    reveal_strlit("cs");
    reveal_strlit("rb");
    reveal_strlit("php");
    reveal_strlit("swift");
    reveal_strlit("scala");
    reveal_strlit("toml");
    reveal_strlit("json");
    reveal_strlit("yaml");
    reveal_strlit("yml");
    reveal_strlit("md");
    reveal_strlit("mdx");
    reveal_strlit("html");
    reveal_strlit("htm");
    reveal_strlit("css");
    reveal_strlit("scss");
    reveal_strlit("sass");
    reveal_strlit("sh");
    reveal_strlit("bash");
    reveal_strlit("zsh");
    reveal_strlit("sql");
    assert forall|i: int| 0 <= i < language_table_len() && extension(file_name) == Some(#[trigger] table_ext(i))
        implies language_of(file_name) == table_lang(i) by {
        table_lookup(i);
    }
    if forall|i: int| 0 <= i < language_table_len() ==> extension(file_name) != Some(#[trigger] table_ext(i)) {
        if let Some(e) = extension(file_name) {
            assert(extension(file_name) != Some(table_ext(0)));
            assert(extension(file_name) != Some(table_ext(1)));
            assert(extension(file_name) != Some(table_ext(2)));
            assert(extension(file_name) != Some(table_ext(3)));
            assert(extension(file_name) != Some(table_ext(4)));
            assert(extension(file_name) != Some(table_ext(5)));
            assert(extension(file_name) != Some(table_ext(6)));
            assert(extension(file_name) != Some(table_ext(7)));
            assert(extension(file_name) != Some(table_ext(8)));
            assert(extension(file_name) != Some(table_ext(9)));
            assert(extension(file_name) != Some(table_ext(10)));
            assert(extension(file_name) != Some(table_ext(11)));
            assert(extension(file_name) != Some(table_ext(12)));
            assert(extension(file_name) != Some(table_ext(13)));
            assert(extension(file_name) != Some(table_ext(14)));
            assert(extension(file_name) != Some(table_ext(15)));
            assert(extension(file_name) != Some(table_ext(16)));
            assert(extension(file_name) != Some(table_ext(17)));
            assert(extension(file_name) != Some(table_ext(18)));
            assert(extension(file_name) != Some(table_ext(19)));
            assert(extension(file_name) != Some(table_ext(20)));
            assert(extension(file_name) != Some(table_ext(21)));
            assert(extension(file_name) != Some(table_ext(22)));
            assert(extension(file_name) != Some(table_ext(23)));
            assert(extension(file_name) != Some(table_ext(24)));
            assert(extension(file_name) != Some(table_ext(25)));
            assert(extension(file_name) != Some(table_ext(26)));
            assert(extension(file_name) != Some(table_ext(27)));
            assert(extension(file_name) != Some(table_ext(28)));
            assert(extension(file_name) != Some(table_ext(29)));
            assert(extension(file_name) != Some(table_ext(30)));
            assert(extension(file_name) != Some(table_ext(31)));
            assert(extension(file_name) != Some(table_ext(32)));
            assert(extension(file_name) != Some(table_ext(33)));
            assert(extension(file_name) != Some(table_ext(34)));
            assert(extension(file_name) != Some(table_ext(35)));
            
        }
    }
}

/// Detect a file's language from the extension of its name.
pub fn detect_language(file_name: &str) -> (l: &'static str)
    ensures
        l@ == language_of(file_name@),
{
    match file_extension(file_name) {
        Some(e) => language_of_extension(e.as_str()),
        None => "Unknown",
    }
}

} // verus!

verus! {

/// Files larger than this (2 MiB) are not read for their text.
pub const MAX_TEXT_SIZE: u64 = 2 * 1024 * 1024;

/// ASCII lowercasing of one character (`char::to_ascii_lowercase`).
pub open spec fn ascii_lower_char(c: char) -> char {
    if 'A' <= c && c <= 'Z' { ((c as u32) + 32) as char } else { c }
}

/// ASCII lowercasing (`str::to_ascii_lowercase`): only `A`–`Z` change.
pub open spec fn ascii_lower(s: Seq<char>) -> Seq<char> {
    s.map_values(|c: char| ascii_lower_char(c))
}

/// Exec counterpart of [`ascii_lower`].
pub fn to_ascii_lowercase(s: &str) -> (r: String)
    ensures
        r@ == ascii_lower(s@),
{
    let cs = chars_of(s);
    let mut r = String::new();
    let mut i: usize = 0;
    while i < cs.len()
        invariant
            cs@ == s@,
            i <= cs.len(),
            r@ == ascii_lower(s@).subrange(0, i as int),
        decreases cs.len() - i,
    {
        let c = cs[i];
        let l = if 'A' <= c && c <= 'Z' { ((c as u8) + 32) as char } else { c };
        assert(l == ascii_lower_char(c));
        push_char(&mut r, l);
        assert(ascii_lower(s@).subrange(0, i + 1) =~= ascii_lower(s@).subrange(0, i as int).push(l));
        i = i + 1;
    }
    assert(ascii_lower(s@).subrange(0, cs.len() as int) =~= ascii_lower(s@));
    r
}

/// The extensions of files whose text is indexed.
pub open spec fn text_extensions() -> Seq<Seq<char>> {
    seq!["rs"@, "py"@, "md"@, "txt"@, "toml"@, "json"@, "yaml"@, "yml"@, "html"@, "css"@, "scss"@,
        "sql"@, "sh"@, "zsh"@, "xml"@, "js"@, "ts"@, "tsx"@, "jsx"@, "go"@, "java"@, "kt"@, "c"@,
        "cpp"@, "h"@, "hpp"@]
}

fn is_text_extension(e: &str) -> (b: bool)
    ensures
        b == text_extensions().contains(e@),
{
    let b = str_eq(e, "rs") || str_eq(e, "py") || str_eq(e, "md") || str_eq(e, "txt")
        || str_eq(e, "toml") || str_eq(e, "json") || str_eq(e, "yaml") || str_eq(e, "yml")
        || str_eq(e, "html") || str_eq(e, "css") || str_eq(e, "scss") || str_eq(e, "sql")
        || str_eq(e, "sh") || str_eq(e, "zsh") || str_eq(e, "xml") || str_eq(e, "js")
        || str_eq(e, "ts") || str_eq(e, "tsx") || str_eq(e, "jsx") || str_eq(e, "go")
        || str_eq(e, "java") || str_eq(e, "kt") || str_eq(e, "c") || str_eq(e, "cpp")
        || str_eq(e, "h") || str_eq(e, "hpp");
    proof {
        let t = text_extensions();
        if b {
            assert(t.contains(e@)) by {
                if e@ == "rs"@ { assert(t[0] == e@); }
                else if e@ == "py"@ { assert(t[1] == e@); }
                else if e@ == "md"@ { assert(t[2] == e@); }
                else if e@ == "txt"@ { assert(t[3] == e@); }
                else if e@ == "toml"@ { assert(t[4] == e@); }
                else if e@ == "json"@ { assert(t[5] == e@); }
                else if e@ == "yaml"@ { assert(t[6] == e@); }
                else if e@ == "yml"@ { assert(t[7] == e@); }
                else if e@ == "html"@ { assert(t[8] == e@); }
                else if e@ == "css"@ { assert(t[9] == e@); }
                else if e@ == "scss"@ { assert(t[10] == e@); }
                else if e@ == "sql"@ { assert(t[11] == e@); }
                else if e@ == "sh"@ { assert(t[12] == e@); }
                else if e@ == "zsh"@ { assert(t[13] == e@); }
                else if e@ == "xml"@ { assert(t[14] == e@); }
                else if e@ == "js"@ { assert(t[15] == e@); }
                else if e@ == "ts"@ { assert(t[16] == e@); }
                else if e@ == "tsx"@ { assert(t[17] == e@); }
                else if e@ == "jsx"@ { assert(t[18] == e@); }
                else if e@ == "go"@ { assert(t[19] == e@); }
                else if e@ == "java"@ { assert(t[20] == e@); }
                else if e@ == "kt"@ { assert(t[21] == e@); }
                else if e@ == "c"@ { assert(t[22] == e@); }
                else if e@ == "cpp"@ { assert(t[23] == e@); }
                else if e@ == "h"@ { assert(t[24] == e@); }
                else { assert(t[25] == e@); }
            }
        } else {
            assert(!t.contains(e@)) by {
                if t.contains(e@) {
                    let k = choose|k: int| 0 <= k < t.len() && t[k] == e@;
                    assert(0 <= k < 26);
                }
            }
        }
    }
    b
}

/// Whether a file of `size` bytes named `file_name` is read for its text:
/// it must be at most [`MAX_TEXT_SIZE`] bytes and carry one of the text
/// extensions (compared ASCII-case-insensitively; no extension never matches).
pub open spec fn text_candidate(size: u64, file_name: Seq<char>) -> bool {
    size <= MAX_TEXT_SIZE && text_extensions().contains(match extension(file_name) {
        Some(e) => ascii_lower(e),
        None => seq![],
    })
}

/// Exec counterpart of [`text_candidate`].
pub fn is_text_candidate(size: u64, file_name: &str) -> (b: bool)
    ensures
        b == text_candidate(size, file_name@),
{
    if size > MAX_TEXT_SIZE {
        return false;
    }
    match file_extension(file_name) {
        Some(e) => {
            let l = to_ascii_lowercase(e.as_str());
            is_text_extension(l.as_str())
        },
        None => {
            proof {
                let t = text_extensions();
                if t.contains(seq![]) {
                    let k = choose|k: int| 0 <= k < t.len() && t[k] == Seq::<char>::empty();
                    assert(t[k].len() == 0);
                    assert(0 <= k < 26);
                    reveal_strlit("rs"); reveal_strlit("py"); reveal_strlit("md"); reveal_strlit("txt");
                    reveal_strlit("toml"); reveal_strlit("json"); reveal_strlit("yaml"); reveal_strlit("yml");
                    reveal_strlit("html"); reveal_strlit("css"); reveal_strlit("scss"); reveal_strlit("sql");
                    reveal_strlit("sh"); reveal_strlit("zsh"); reveal_strlit("xml"); reveal_strlit("js");
                    reveal_strlit("ts"); reveal_strlit("tsx"); reveal_strlit("jsx"); reveal_strlit("go");
                    reveal_strlit("java"); reveal_strlit("kt"); reveal_strlit("c"); reveal_strlit("cpp");
                    reveal_strlit("h"); reveal_strlit("hpp");
                }
            }
            false
        },
    }
}

/// `String::from_utf8`: the text that `bytes` encode, when they are valid UTF-8.
#[verifier::external_body]
fn utf8_text(bytes: &[u8]) -> (r: Option<String>)
    ensures
        match r {
            Some(s) => valid_utf8(bytes@) && s@ == decode_utf8(bytes@),
            None => !valid_utf8(bytes@),
        },
{
    String::from_utf8(bytes.to_vec()).ok()
}

/// The indexed text of a file's contents: empty for binary contents (any
/// NUL byte) and for contents that are not valid UTF-8.
pub fn decode_text(bytes: &[u8]) -> (s: String)
    ensures
        bytes@.contains(0u8) ==> s@.len() == 0,
        !bytes@.contains(0u8) && valid_utf8(bytes@) ==> s@ == decode_utf8(bytes@),
        !valid_utf8(bytes@) ==> s@.len() == 0,
{
    let mut i: usize = 0;
    while i < bytes.len()
        invariant
            i <= bytes.len(),
            forall|j: int| 0 <= j < i ==> bytes@[j] != 0u8,
        decreases bytes.len() - i,
    {
        if bytes[i] == 0 {
            assert(bytes@.contains(0u8)) by { assert(bytes@[i as int] == 0u8); }
            return String::new();
        }
        i = i + 1;
    }
    match utf8_text(bytes) {
        Some(s) => s,
        None => String::new(),
    }
}

/// The merged results of searches in several workspaces: every path found
/// in any of them, once, in lexicographic order.
pub fn search_all_workspaces(per_workspace: &[Vec<String>]) -> (out: Vec<String>)
    ensures
        strictly_sorted(views(out@)),
        forall|s: Seq<char>| views(out@).contains(s) <==> exists|w: int| 0 <= w < per_workspace@.len()
            && views(#[trigger] per_workspace@[w]@).contains(s),
{
    let mut out: Vec<String> = Vec::new();
    let mut w: usize = 0;
    assert(views(out@) =~= Seq::<Seq<char>>::empty());
    while w < per_workspace.len()
        invariant
            w <= per_workspace.len(),
            strictly_sorted(views(out@)),
            forall|s: Seq<char>| views(out@).contains(s) <==> exists|x: int| 0 <= x < w
                && views(#[trigger] per_workspace@[x]@).contains(s),
        decreases per_workspace.len() - w,
    {
        let results = &per_workspace[w];
        let mut k: usize = 0;
        while k < results.len()
            invariant
                w < per_workspace.len(),
                results == &per_workspace@[w as int],
                k <= results.len(),
                strictly_sorted(views(out@)),
                forall|s: Seq<char>| views(out@).contains(s) <==> (exists|x: int| 0 <= x < w
                    && views(#[trigger] per_workspace@[x]@).contains(s))
                    || views(results@).subrange(0, k as int).contains(s),
            decreases results.len() - k,
        {
            let ghost before = views(out@);
            insert_sorted_unique(&mut out, results[k].clone());
            proof {
                let rv = views(results@);
                assert(rv.subrange(0, k + 1) =~= rv.subrange(0, k as int).push(rv[k as int]));
                assert forall|s: Seq<char>| views(out@).contains(s) <==> (exists|x: int| 0 <= x < w
                    && views(#[trigger] per_workspace@[x]@).contains(s))
                    || rv.subrange(0, k + 1).contains(s) by {
                    let sub1 = rv.subrange(0, k + 1);
                    let sub0 = rv.subrange(0, k as int);
                    if sub1.contains(s) && !sub0.contains(s) {
                        let j = choose|j: int| 0 <= j < sub1.len() && sub1[j] == s;
                        if j < k { assert(sub0[j] == s); }
                    }
                    if sub0.contains(s) {
                        let j = choose|j: int| 0 <= j < sub0.len() && sub0[j] == s;
                        assert(sub1[j] == s);
                    }
                    if s == rv[k as int] {
                        assert(sub1[k as int] == s);
                    }
                }
            }
            k = k + 1;
        }
        proof {
            let rv = views(results@);
            assert(rv.subrange(0, results.len() as int) =~= rv);
            assert forall|s: Seq<char>| views(out@).contains(s) <==> exists|x: int| 0 <= x < w + 1
                && views(#[trigger] per_workspace@[x]@).contains(s) by {
                if views(per_workspace@[w as int]@).contains(s) {
                    assert(0 <= w < w + 1);
                }
                if exists|x: int| 0 <= x < w + 1 && views(#[trigger] per_workspace@[x]@).contains(s) {
                    let x = choose|x: int| 0 <= x < w + 1 && views(#[trigger] per_workspace@[x]@).contains(s);
                    if x < w {
                    } else {
                        assert(x == w);
                    }
                }
            }
        }
        w = w + 1;
    }
    out
}

/// The identity of a workspace: the first 16 hex digits of the SHA-256 of
/// its root path.
pub open spec fn workspace_key(root: Seq<char>) -> Seq<char> {
    hex_of(sha256_spec(vstd::utf8::encode_utf8(root))).subrange(0, 16)
}

/// The workspace key of the root path `root` (see [`workspace_key`]).
pub fn get_workspace_hash(root: &str) -> (h: String)
    ensures
        h@ == workspace_key(root@),
        h@.len() == 16,
{
    let full = content_hash(root.as_bytes());
    let cs = chars_of(full.as_str());
    let mut h = String::new();
    let mut i: usize = 0;
    while i < 16
        invariant
            cs@ == hex_of(sha256_spec(vstd::utf8::encode_utf8(root@))),
            cs@.len() == 64,
            i <= 16,
            h@ == cs@.subrange(0, i as int),
        decreases 16 - i,
    {
        push_char(&mut h, cs[i]);
        assert(cs@.subrange(0, i + 1) =~= cs@.subrange(0, i as int).push(cs@[i as int]));
        i = i + 1;
    }
    h
}

} // verus!

verus! {

/// Directories whose files are never indexed.
pub open spec fn excluded_component(c: Seq<char>) -> bool {
    c == ".git"@ || c == "target"@
}

/// A path is left out of the index when one of its components is excluded.
pub open spec fn excluded_path(components: Seq<Seq<char>>) -> bool {
    exists|i: int| 0 <= i < components.len() && excluded_component(#[trigger] components[i])
}

/// Whether the path with these components is left out of the index
/// (see [`excluded_path`]).
pub fn is_excluded_path(components: &Vec<String>) -> (b: bool)
    ensures
        b == excluded_path(views(components@)),
{
    let ghost vs = views(components@);
    let mut i: usize = 0;
    while i < components.len()
        invariant
            i <= components.len(),
            vs == views(components@),
            forall|j: int| 0 <= j < i ==> !excluded_component(#[trigger] vs[j]),
        decreases components.len() - i,
    {
        assert(vs[i as int] == components@[i as int]@);
        if str_eq(components[i].as_str(), ".git") || str_eq(components[i].as_str(), "target") {
            return true;
        }
        i = i + 1;
    }
    false
}

/// Files of this many bytes or more get no embedding.
pub const EMBED_MAX_BYTES: u64 = 500_000;

/// The number of leading bytes of a file that its embedding is computed from.
pub const EMBED_EXCERPT_BYTES: usize = 1000;

/// What indexing does with one file.
#[derive(PartialEq, Eq, Structural)]
pub enum IndexStep {
    /// The stored record is up to date: nothing is written.
    Unchanged,
    /// The record is written; `embed` says whether an embedding is computed too.
    Store { embed: bool },
}

/// The step for a file modified at `mtime`, of `size` bytes, whose stored
/// record (if any) says `existing_mtime`: an unchanged time keeps the record,
/// anything else stores it, with an embedding for a file under
/// [`EMBED_MAX_BYTES`] when embeddings are available.
pub fn index_step(existing_mtime: Option<i64>, mtime: i64, size: u64, embeddings_available: bool) -> (s: IndexStep)
    ensures
        existing_mtime == Some(mtime) ==> s == IndexStep::Unchanged,
        existing_mtime != Some(mtime) ==> s == (IndexStep::Store { embed: size < EMBED_MAX_BYTES && embeddings_available }),
{
    match existing_mtime {
        Some(t) => {
            if t == mtime {
                return IndexStep::Unchanged;
            }
        },
        None => {},
    }
    IndexStep::Store { embed: size < EMBED_MAX_BYTES && embeddings_available }
}

/// The text an embedding is computed from: the first
/// [`EMBED_EXCERPT_BYTES`] bytes of `content`, or all of it when it is
/// shorter. The cut must fall on a character boundary; the byte length of
/// a string always fits in `usize`.
pub fn embedding_excerpt(content: &str) -> (r: &str)
    requires
        vstd::utf8::encode_utf8(content@).len() <= usize::MAX,
        vstd::utf8::encode_utf8(content@).len() <= EMBED_EXCERPT_BYTES
            || vstd::utf8::is_char_boundary(vstd::utf8::encode_utf8(content@), EMBED_EXCERPT_BYTES as int),
    ensures
        vstd::utf8::encode_utf8(r@) == if vstd::utf8::encode_utf8(content@).len() > EMBED_EXCERPT_BYTES {
            vstd::utf8::encode_utf8(content@).subrange(0, EMBED_EXCERPT_BYTES as int)
        } else {
            vstd::utf8::encode_utf8(content@)
        },
{
    if content.len() > EMBED_EXCERPT_BYTES {
        content.split_at(EMBED_EXCERPT_BYTES).0
    } else {
        content
    }
}

/// The record of an indexed file.
pub fn indexed_file(path: String, size: u64, modified: u64) -> (f: IndexedFile)
    ensures
        f.path == path && f.size == size && f.modified == modified,
{
    IndexedFile { path, size, modified }
}

} // verus!

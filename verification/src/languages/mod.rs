//! The languages whose source is measured.

pub mod adapters;
pub mod gleam;
pub mod gleam_tests;
pub mod javascript;
pub mod javascript_api;
pub mod javascript_tests;
pub mod lines;
pub mod paths;
pub mod policy;
pub mod python;
pub mod regions;
pub mod rust;
pub mod rust_attributes;
pub mod rust_scopes;
pub mod rust_tests;
pub mod siblings;
pub mod syntax;
pub mod tree;

use vstd::prelude::*;

pub use adapters::{adapter, adapter_for, Adapter, AdapterError, LanguageAdapter};
pub use policy::{LanguageTestPolicy, TestExclusionPolicy};

use crate::text::same;

verus! {

/// The grammars that measurements depend on.
pub const PARSER_VERSIONS: &'static str =
    "tree-sitter=0.25.2;javascript=0.25.0;typescript=0.23.2-erosion.2;python=0.25.0;rust=0.24.2-erosion.1;gleam=git-cefbd686";

/// A language whose source is measured.
#[derive(Clone, Copy, Debug, PartialEq, Eq, Hash, Structural)]
pub enum Language {
    JavaScript,
    TypeScript,
    Tsx,
    Python,
    Rust,
    Gleam,
}

/// The language of files with the given extension.
pub open spec fn language_of(extension: Seq<char>) -> Option<Language> {
    if extension == "js"@ || extension == "jsx"@ || extension == "mjs"@ || extension == "cjs"@ {
        Some(Language::JavaScript)
    } else if extension == "ts"@ || extension == "mts"@ || extension == "cts"@ {
        Some(Language::TypeScript)
    } else if extension == "tsx"@ {
        Some(Language::Tsx)
    } else if extension == "py"@ || extension == "pyw"@ || extension == "pyi"@ {
        Some(Language::Python)
    } else if extension == "rs"@ {
        Some(Language::Rust)
    } else if extension == "gleam"@ {
        Some(Language::Gleam)
    } else {
        None
    }
}

/// The language of a file, by its extension in any case.
pub open spec fn path_language(path: Seq<char>) -> Option<Language> {
    match paths::extension_of(path) {
        Some(extension) => language_of(paths::lowered(extension)),
        None => None,
    }
}

impl Language {
    /// Every language.
    pub const ALL: [Language; 6] = [
        Language::JavaScript,
        Language::TypeScript,
        Language::Tsx,
        Language::Python,
        Language::Rust,
        Language::Gleam,
    ];

    pub open spec fn name(self) -> Seq<char> {
        match self {
            Language::JavaScript => "javascript"@,
            Language::TypeScript => "typescript"@,
            Language::Tsx => "tsx"@,
            Language::Python => "python"@,
            Language::Rust => "rust"@,
            Language::Gleam => "gleam"@,
        }
    }

    /// The language of a file, by its extension in any case.
    pub fn for_path(path: &str) -> (language: Option<Language>)
        ensures
            language == path_language(path@),
    {
        let extension = match paths::extension(path) {
            Some(extension) => paths::lower_text(extension),
            None => {
                return None;
            },
        };
        let name: &str = extension.as_str();
        if same(name, "js") || same(name, "jsx") || same(name, "mjs") || same(name, "cjs") {
            Some(Language::JavaScript)
        } else if same(name, "ts") || same(name, "mts") || same(name, "cts") {
            Some(Language::TypeScript)
        } else if same(name, "tsx") {
            Some(Language::Tsx)
        } else if same(name, "py") || same(name, "pyw") || same(name, "pyi") {
            Some(Language::Python)
        } else if same(name, "rs") {
            Some(Language::Rust)
        } else if same(name, "gleam") {
            Some(Language::Gleam)
        } else {
            None
        }
    }

    /// The name of a language in reports and cache records.
    pub fn id(self) -> (id: &'static str)
        ensures
            id@ == self.name(),
    {
        match self {
            Language::JavaScript => "javascript",
            Language::TypeScript => "typescript",
            Language::Tsx => "tsx",
            Language::Python => "python",
            Language::Rust => "rust",
            Language::Gleam => "gleam",
        }
    }
}

/// Languages have different names.
pub proof fn names_are_distinct(a: Language, b: Language)
    requires
        a.name() == b.name(),
    ensures
        a == b,
{
    reveal_strlit("javascript");
    reveal_strlit("typescript");
    reveal_strlit("tsx");
    reveal_strlit("python");
    reveal_strlit("rust");
    reveal_strlit("gleam");
    assert("javascript"@.len() == 10 && "javascript"@[0] == 'j');
    assert("typescript"@.len() == 10 && "typescript"@[0] == 't');
    assert("tsx"@.len() == 3);
    assert("python"@.len() == 6);
    assert("rust"@.len() == 4);
    assert("gleam"@.len() == 5);
}

} // verus!

//! The embedded languages hooks can be written in, and how file extensions
//! select them.

use vstd::prelude::*;
use vstd::string::StringExecFns;

verus! {

/// A language a hook file can be written in. JSON files are not a
/// programming language: they are short-form specifications of
/// inference-backed hooks.
#[derive(Debug, Clone, Copy, PartialEq, Eq, Structural)]
pub enum Language {
    Python,
    Rust,
    Json,
}

/// A language together with the file extension that selects it.
pub struct LanguageDef {
    language: Language,
    extension: String,
}

impl LanguageDef {
    /// The language of this definition.
    pub closed spec fn spec_language(&self) -> Language {
        self.language
    }

    /// The extension of this definition.
    pub closed spec fn spec_extension(&self) -> Seq<char> {
        self.extension@
    }

    /// Pairs a language with its extension.
    pub fn new(language: Language, extension: &str) -> (r: Self)
        ensures
            r.spec_language() == language,
            r.spec_extension() == extension@,
    {
        LanguageDef { language, extension: extension.to_owned() }
    }

    /// The language of this definition.
    pub fn get_language(&self) -> (r: &Language)
        ensures
            r == self.spec_language(),
    {
        &self.language
    }

    /// The extension of this definition.
    pub fn get_extension(&self) -> (r: &String)
        ensures
            r@ == self.spec_extension(),
    {
        &self.extension
    }
}

/// The extension of each supported language.
pub open spec fn extension_chars(l: Language) -> Seq<char> {
    match l {
        Language::Python => seq!['p', 'y'],
        Language::Rust => seq!['r', 's'],
        Language::Json => seq!['j', 's', 'o', 'n'],
    }
}

/// The languages hooks can be written in, with their file extensions.
pub fn get_available_languages() -> (r: Vec<LanguageDef>)
    ensures
        r@.len() == 3,
        r@[0].spec_language() == Language::Python && r@[0].spec_extension() == extension_chars(
            Language::Python,
        ),
        r@[1].spec_language() == Language::Rust && r@[1].spec_extension() == extension_chars(
            Language::Rust,
        ),
        r@[2].spec_language() == Language::Json && r@[2].spec_extension() == extension_chars(
            Language::Json,
        ),
{
    proof {
        reveal_strlit("py");
        reveal_strlit("rs");
        reveal_strlit("json");
        assert("py"@ =~= extension_chars(Language::Python));
        assert("rs"@ =~= extension_chars(Language::Rust));
        assert("json"@ =~= extension_chars(Language::Json));
    }
    let mut v: Vec<LanguageDef> = Vec::new();
    v.push(LanguageDef::new(Language::Python, "py"));
    v.push(LanguageDef::new(Language::Rust, "rs"));
    v.push(LanguageDef::new(Language::Json, "json"));
    v
}

/// The language named by a display name as the interactive scaffolding uses
/// it; only Python hooks can be generated there, and the name must be its.
pub fn get_language_extension(language: &str) -> (r: String)
    requires
        language@ == seq!['P', 'y', 't', 'h', 'o', 'n'],
    ensures
        r@ == extension_chars(Language::Python),
{
    proof {
        reveal_strlit("py");
        assert("py"@ =~= extension_chars(Language::Python));
    }
    String::from_str("py")
}

} // verus!

//! Languages of the code editor.

use vstd::prelude::*;

verus! {

#[derive(Debug, Clone, Copy, PartialEq, Eq)]
pub enum Language {
    Rust,
    Json,
    Toml,
    Markdown,
    Python,
    JavaScript,
    Html,
    Css,
    Shell,
}

impl Language {
    pub open spec fn spec_extension(self) -> Seq<char> {
        match self {
            Language::Rust => "rs"@,
            Language::Json => "json"@,
            Language::Toml => "toml"@,
            Language::Markdown => "md"@,
            Language::Python => "py"@,
            Language::JavaScript => "js"@,
            Language::Html => "html"@,
            Language::Css => "css"@,
            Language::Shell => "sh"@,
        }
    }

    /// File extension of the language, which selects its syntax highlighting.
    pub fn extension(self) -> (r: &'static str)
        ensures
            r@ == self.spec_extension(),
    {
        match self {
            Language::Rust => "rs",
            Language::Json => "json",
            Language::Toml => "toml",
            Language::Markdown => "md",
            Language::Python => "py",
            Language::JavaScript => "js",
            Language::Html => "html",
            Language::Css => "css",
            Language::Shell => "sh",
        }
    }

    pub open spec fn spec_label(self) -> Seq<char> {
        match self {
            Language::Rust => "Rust"@,
            Language::Json => "JSON"@,
            Language::Toml => "TOML"@,
            Language::Markdown => "Markdown"@,
            Language::Python => "Python"@,
            Language::JavaScript => "JavaScript"@,
            Language::Html => "HTML"@,
            Language::Css => "CSS"@,
            Language::Shell => "Shell"@,
        }
    }

    /// Name of the language shown to users.
    pub fn label(self) -> (r: &'static str)
        ensures
            r@ == self.spec_label(),
    {
        match self {
            Language::Rust => "Rust",
            Language::Json => "JSON",
            Language::Toml => "TOML",
            Language::Markdown => "Markdown",
            Language::Python => "Python",
            Language::JavaScript => "JavaScript",
            Language::Html => "HTML",
            Language::Css => "CSS",
            Language::Shell => "Shell",
        }
    }

    /// Every language, in declaration order.
    pub fn all() -> (r: Vec<Language>)
        ensures
            r@ == seq![Language::Rust, Language::Json, Language::Toml, Language::Markdown, Language::Python, Language::JavaScript, Language::Html, Language::Css, Language::Shell],
    {
        vec![Language::Rust, Language::Json, Language::Toml, Language::Markdown, Language::Python, Language::JavaScript, Language::Html, Language::Css, Language::Shell]
    }
}

} // verus!

//! The languages that the extraction rules know, and the data each one brings:
//! its file extension, the pattern of a function declaration, and its comment
//! markers.

use crate::text::same_text;
use vstd::prelude::*;
use vstd::string::*;

verus! {

/// A source language, as told by a file extension.
#[derive(Clone, Copy, Debug, PartialEq, Eq, Structural)]
pub enum Language {
    Rust,
    Python,
    Javascript,
    Typescript,
    Golang,
    C,
    Unknown,
}

impl Language {
    /// The language that a file extension stands for; `Unknown` for every
    /// extension that is not in the table.
    pub open spec fn resolve(extension: Seq<char>) -> Language {
        if extension == "rs"@ {
            Language::Rust
        } else if extension == "py"@ {
            Language::Python
        } else if extension == "js"@ {
            Language::Javascript
        } else if extension == "ts"@ {
            Language::Typescript
        } else if extension == "go"@ {
            Language::Golang
        } else if extension == "c"@ || extension == "cpp"@ || extension == "cc"@ || extension
            == "h"@ || extension == "hpp"@ {
            Language::C
        } else {
            Language::Unknown
        }
    }

    /// The extension under which files of the language are stored and
    /// highlighted; empty for `Unknown`.
    pub open spec fn extension(self) -> Seq<char> {
        match self {
            Language::Rust => "rs"@,
            Language::Python => "py"@,
            Language::Javascript => "js"@,
            Language::Typescript => "ts"@,
            Language::Golang => "go"@,
            Language::C => "cpp"@,
            Language::Unknown => ""@,
        }
    }

    /// The regular expression that a line declaring a function matches. Its
    /// first group is the declared name. The pattern of `Unknown` matches
    /// every line and has no group.
    pub open spec fn function_pattern(self) -> Seq<char> {
        match self {
            Language::Rust => r"^ *(?:pub)? *fn *([a-zA-Z0-9_]+).*\(.*\) *(?:-> *[a-zA-Z0-9_]+ *)?\{? *$"@,
            Language::Python => r"^ *def *([a-zA-Z0-9_]+) *\([.]*\) *: *$"@,
            Language::Javascript => r"^ *(?:function|const|let) *([a-zA-Z0-9_]+) *=? *\(.*\) *(?:: *[a-zA-Z0-9_]+)? *(?:=>)? *\{? *$"@,
            Language::Typescript => r"^ *(?:function|const|let) *([a-zA-Z0-9_]+) *=? *\(.*\) *(?:: *[a-zA-Z0-9_]*)? *(?:=>)? *\{? *$"@,
            Language::Golang => r"^ *func *([a-zA-Z0-9_]+) *\(.*\) *(?:.*)? *\{? *$"@,
            Language::C => r"^ *[a-zA-Z0-9_*& ]+(?: |::)([a-zA-Z0-9_]+)\(.*\) *\{? *$"@,
            Language::Unknown => r".*"@,
        }
    }

    /// The marker that starts a comment running to the end of the line; empty
    /// for `Unknown`.
    pub open spec fn line_comment(self) -> Seq<char> {
        match self {
            Language::Python => "#"@,
            Language::Unknown => ""@,
            _ => "//"@,
        }
    }

    /// The marker that opens a comment of several lines; empty for `Unknown`.
    pub open spec fn block_comment_start(self) -> Seq<char> {
        match self {
            Language::Python => "\"\"\""@,
            Language::Unknown => ""@,
            _ => "/*"@,
        }
    }

    /// The marker that closes a comment of several lines; empty for `Unknown`.
    pub open spec fn block_comment_end(self) -> Seq<char> {
        match self {
            Language::Python => "\"\"\""@,
            Language::Unknown => ""@,
            _ => "*/"@,
        }
    }

    /// Resolves a file extension by exact match on the table.
    pub fn from_extension(extension: &str) -> (language: Language)
        ensures
            language == Language::resolve(extension@),
    {
        if same_text(extension, "rs") {
            Language::Rust
        } else if same_text(extension, "py") {
            Language::Python
        } else if same_text(extension, "js") {
            Language::Javascript
        } else if same_text(extension, "ts") {
            Language::Typescript
        } else if same_text(extension, "go") {
            Language::Golang
        } else if same_text(extension, "c") || same_text(extension, "cpp") || same_text(
            extension,
            "cc",
        ) || same_text(extension, "h") || same_text(extension, "hpp") {
            Language::C
        } else {
            Language::Unknown
        }
    }

    /// The extension of the language.
    pub fn to_extension(&self) -> (extension: &'static str)
        ensures
            extension@ == self.extension(),
    {
        match self {
            Language::Rust => "rs",
            Language::Python => "py",
            Language::Javascript => "js",
            Language::Typescript => "ts",
            Language::Golang => "go",
            Language::C => "cpp",
            Language::Unknown => "",
        }
    }

    /// The text of the pattern that recognises a function declaration.
    pub fn get_function_syntax(&self) -> (pattern: &'static str)
        ensures
            pattern@ == self.function_pattern(),
    {
        match self {
            Language::Rust => r"^ *(?:pub)? *fn *([a-zA-Z0-9_]+).*\(.*\) *(?:-> *[a-zA-Z0-9_]+ *)?\{? *$",
            Language::Python => r"^ *def *([a-zA-Z0-9_]+) *\([.]*\) *: *$",
            Language::Javascript => r"^ *(?:function|const|let) *([a-zA-Z0-9_]+) *=? *\(.*\) *(?:: *[a-zA-Z0-9_]+)? *(?:=>)? *\{? *$",
            Language::Typescript => r"^ *(?:function|const|let) *([a-zA-Z0-9_]+) *=? *\(.*\) *(?:: *[a-zA-Z0-9_]*)? *(?:=>)? *\{? *$",
            Language::Golang => r"^ *func *([a-zA-Z0-9_]+) *\(.*\) *(?:.*)? *\{? *$",
            Language::C => r"^ *[a-zA-Z0-9_*& ]+(?: |::)([a-zA-Z0-9_]+)\(.*\) *\{? *$",
            Language::Unknown => r".*",
        }
    }

    /// The comment markers of the language: the one of a line comment, then
    /// the opening and the closing one of a block comment.
    pub fn get_comment_delimiters(&self) -> (markers: (String, String, String))
        ensures
            markers.0@ == self.line_comment(),
            markers.1@ == self.block_comment_start(),
            markers.2@ == self.block_comment_end(),
    {
        match self {
            Language::Python => (
                String::from_str("#"),
                String::from_str("\"\"\""),
                String::from_str("\"\"\""),
            ),
            Language::Unknown => (String::from_str(""), String::from_str(""), String::from_str("")),
            _ => (String::from_str("//"), String::from_str("/*"), String::from_str("*/")),
        }
    }
}

/// The extensions of the table differ from one another and from the empty
/// text: each in its length or in its first character.
proof fn extensions_differ()
    ensures
        "rs"@.len() == 2 && "rs"@[0] == 'r',
        "py"@.len() == 2 && "py"@[0] == 'p',
        "js"@.len() == 2 && "js"@[0] == 'j',
        "ts"@.len() == 2 && "ts"@[0] == 't',
        "go"@.len() == 2 && "go"@[0] == 'g',
        "c"@.len() == 1 && "c"@[0] == 'c',
        "cpp"@.len() == 3 && "cpp"@[0] == 'c',
        "cc"@.len() == 2 && "cc"@[0] == 'c',
        "h"@.len() == 1 && "h"@[0] == 'h',
        "hpp"@.len() == 3 && "hpp"@[0] == 'h',
        ""@.len() == 0,
{
    reveal_strlit("rs");
    reveal_strlit("py");
    reveal_strlit("js");
    reveal_strlit("ts");
    reveal_strlit("go");
    reveal_strlit("c");
    reveal_strlit("cpp");
    reveal_strlit("cc");
    reveal_strlit("h");
    reveal_strlit("hpp");
    reveal_strlit("");
}

/// The table maps each of the ten known extensions to its language.
pub proof fn resolve_known_extensions()
    ensures
        Language::resolve("rs"@) == Language::Rust,
        Language::resolve("py"@) == Language::Python,
        Language::resolve("js"@) == Language::Javascript,
        Language::resolve("ts"@) == Language::Typescript,
        Language::resolve("go"@) == Language::Golang,
        Language::resolve("c"@) == Language::C,
        Language::resolve("cpp"@) == Language::C,
        Language::resolve("cc"@) == Language::C,
        Language::resolve("h"@) == Language::C,
        Language::resolve("hpp"@) == Language::C,
{
    extensions_differ();
}

/// One of the ten extensions of the table.
pub open spec fn known_extension(extension: Seq<char>) -> bool {
    ||| extension == "rs"@
    ||| extension == "py"@
    ||| extension == "js"@
    ||| extension == "ts"@
    ||| extension == "go"@
    ||| extension == "c"@
    ||| extension == "cpp"@
    ||| extension == "cc"@
    ||| extension == "h"@
    ||| extension == "hpp"@
}

/// An extension resolves to `Unknown` exactly where the table does not hold
/// it.
pub proof fn resolve_unknown_extensions(extension: Seq<char>)
    ensures
        Language::resolve(extension) == Language::Unknown <==> !known_extension(extension),
{
}

/// A language is the language of its own extension; for `Unknown` that is the
/// empty extension.
pub proof fn extension_resolves_back(language: Language)
    ensures
        Language::resolve(language.extension()) == language,
{
    extensions_differ();
}

} // verus!

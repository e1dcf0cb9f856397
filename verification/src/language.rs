//! Source languages and the identifiers of interfaces and adapters.

use crate::error;
use crate::error::{ErrorKind, ErrorView, PitError};
use crate::text;
use crate::text::{chars_of, text_eq, to_lower};
use std::str::FromStr;
use vstd::prelude::*;

verus! {

/// A language that projects are written in.
#[derive(Debug, Clone, Copy, PartialEq, Eq, Hash, Structural)]
pub enum Language {
    Rust,
    Go,
    C,
    Cpp,
    JavaScript,
    TypeScript,
    Python,
    CSharp,
    Java,
}

impl View for Language {
    type V = Language;

    open spec fn view(&self) -> Language {
        *self
    }
}

/// The name of a language.
pub open spec fn language_text(language: Language) -> Seq<char> {
    match language {
        Language::Rust => "rust"@,
        Language::Go => "go"@,
        Language::C => "c"@,
        Language::Cpp => "cpp"@,
        Language::JavaScript => "javascript"@,
        Language::TypeScript => "typescript"@,
        Language::Python => "python"@,
        Language::CSharp => "csharp"@,
        Language::Java => "java"@,
    }
}

/// The language that a lower-case name or alias stands for.
pub open spec fn language_of(name: Seq<char>) -> Option<Language> {
    if name == "rust"@ {
        Some(Language::Rust)
    } else if name == "go"@ {
        Some(Language::Go)
    } else if name == "c"@ {
        Some(Language::C)
    } else if name == "cpp"@ || name == "c++"@ {
        Some(Language::Cpp)
    } else if name == "javascript"@ || name == "js"@ {
        Some(Language::JavaScript)
    } else if name == "typescript"@ || name == "ts"@ {
        Some(Language::TypeScript)
    } else if name == "python"@ || name == "py"@ {
        Some(Language::Python)
    } else if name == "csharp"@ || name == "c#"@ {
        Some(Language::CSharp)
    } else if name == "java"@ {
        Some(Language::Java)
    } else {
        None
    }
}

/// The outcome of reading the name of a language, in any case.
pub open spec fn language_named(value: Seq<char>) -> Result<Language, ErrorView> {
    match language_of(text::lower(value)) {
        Some(language) => Ok(language),
        None => Err(error::error(ErrorKind::Name, "unsupported language '"@ + value + "'"@)),
    }
}

impl Language {
    /// Every language.
    pub const ALL: [Language; 9] = [
        Language::Rust,
        Language::Go,
        Language::C,
        Language::Cpp,
        Language::JavaScript,
        Language::TypeScript,
        Language::Python,
        Language::CSharp,
        Language::Java,
    ];

    /// The name of the language.
    pub fn as_str(self) -> (r: &'static str)
        ensures
            r@ == language_text(self),
    {
        match self {
            Language::Rust => "rust",
            Language::Go => "go",
            Language::C => "c",
            Language::Cpp => "cpp",
            Language::JavaScript => "javascript",
            Language::TypeScript => "typescript",
            Language::Python => "python",
            Language::CSharp => "csharp",
            Language::Java => "java",
        }
    }

    /// The language of that name or alias, in any case.
    pub fn from_str(value: &str) -> (r: Result<Self, PitError>)
        ensures
            error::outcome(r) == language_named(value@),
    {
        let lowered = to_lower(value);
        let name = lowered.as_str();
        if text_eq(name, "rust") {
            Ok(Language::Rust)
        } else if text_eq(name, "go") {
            Ok(Language::Go)
        } else if text_eq(name, "c") {
            Ok(Language::C)
        } else if text_eq(name, "cpp") || text_eq(name, "c++") {
            Ok(Language::Cpp)
        } else if text_eq(name, "javascript") || text_eq(name, "js") {
            Ok(Language::JavaScript)
        } else if text_eq(name, "typescript") || text_eq(name, "ts") {
            Ok(Language::TypeScript)
        } else if text_eq(name, "python") || text_eq(name, "py") {
            Ok(Language::Python)
        } else if text_eq(name, "csharp") || text_eq(name, "c#") {
            Ok(Language::CSharp)
        } else if text_eq(name, "java") {
            Ok(Language::Java)
        } else {
            Err(PitError::naming(ErrorKind::Name, "unsupported language '", value, "'"))
        }
    }
}

impl FromStr for Language {
    type Err = PitError;

    fn from_str(value: &str) -> (r: Result<Self, PitError>)
        ensures
            error::outcome(r) == language_named(value@),
    {
        Language::from_str(value)
    }
}

/// The texts of the language names and aliases.
proof fn lemma_language_texts()
    ensures
        "rust"@ == seq!['r', 'u', 's', 't'],
        "go"@ == seq!['g', 'o'],
        "c"@ == seq!['c'],
        "cpp"@ == seq!['c', 'p', 'p'],
        "c++"@ == seq!['c', '+', '+'],
        "javascript"@ == seq!['j', 'a', 'v', 'a', 's', 'c', 'r', 'i', 'p', 't'],
        "js"@ == seq!['j', 's'],
        "typescript"@ == seq!['t', 'y', 'p', 'e', 's', 'c', 'r', 'i', 'p', 't'],
        "ts"@ == seq!['t', 's'],
        "python"@ == seq!['p', 'y', 't', 'h', 'o', 'n'],
        "py"@ == seq!['p', 'y'],
        "csharp"@ == seq!['c', 's', 'h', 'a', 'r', 'p'],
        "c#"@ == seq!['c', '#'],
        "java"@ == seq!['j', 'a', 'v', 'a'],
{
    reveal_strlit("rust");
    reveal_strlit("go");
    reveal_strlit("c");
    reveal_strlit("cpp");
    reveal_strlit("c++");
    reveal_strlit("javascript");
    reveal_strlit("js");
    reveal_strlit("typescript");
    reveal_strlit("ts");
    reveal_strlit("python");
    reveal_strlit("py");
    reveal_strlit("csharp");
    reveal_strlit("c#");
    reveal_strlit("java");
    assert("rust"@ =~= seq!['r', 'u', 's', 't']);
    assert("go"@ =~= seq!['g', 'o']);
    assert("c"@ =~= seq!['c']);
    assert("cpp"@ =~= seq!['c', 'p', 'p']);
    assert("c++"@ =~= seq!['c', '+', '+']);
    assert("javascript"@ =~= seq!['j', 'a', 'v', 'a', 's', 'c', 'r', 'i', 'p', 't']);
    assert("js"@ =~= seq!['j', 's']);
    assert("typescript"@ =~= seq!['t', 'y', 'p', 'e', 's', 'c', 'r', 'i', 'p', 't']);
    assert("ts"@ =~= seq!['t', 's']);
    assert("python"@ =~= seq!['p', 'y', 't', 'h', 'o', 'n']);
    assert("py"@ =~= seq!['p', 'y']);
    assert("csharp"@ =~= seq!['c', 's', 'h', 'a', 'r', 'p']);
    assert("c#"@ =~= seq!['c', '#']);
    assert("java"@ =~= seq!['j', 'a', 'v', 'a']);
}

/// The name of every language is read as that language.
pub proof fn language_names_are_read_back(language: Language)
    ensures
        language_named(language_text(language)) == Ok::<Language, ErrorView>(language),
{
    lemma_language_texts();
    let name = language_text(language);
    assert(text::lower(name) =~= name);
    match language {
        Language::JavaScript => {
            assert("javascript"@[0] != "typescript"@[0]);
        },
        Language::TypeScript => {
            assert("javascript"@[0] != "typescript"@[0]);
        },
        Language::Rust => {
            assert("rust"@[0] != "java"@[0]);
        },
        Language::Java => {
            assert("rust"@[0] != "java"@[0]);
        },
        Language::CSharp => {
            assert("csharp"@[0] != "python"@[0]);
        },
        Language::Python => {
            assert("csharp"@[0] != "python"@[0]);
        },
        _ => {},
    }
}

/// Different languages have different names.
pub proof fn language_names_differ(a: Language, b: Language)
    requires
        language_text(a) == language_text(b),
    ensures
        a == b,
{
    language_names_are_read_back(a);
    language_names_are_read_back(b);
}

/// Whether `c` may stand anywhere in an identifier.
pub open spec fn is_identifier_letter(c: char) -> bool {
    'a' <= c <= 'z' || '0' <= c <= '9'
}

/// Whether `c` may stand inside an identifier.
pub open spec fn is_separator(c: char) -> bool {
    c == '-' || c == '_' || c == '/' || c == '.'
}

/// The identifiers of interfaces and adapters: 1 to 128 lower-case letters,
/// digits and separators, with no separator first or last.
pub open spec fn is_identifier(s: Seq<char>) -> bool {
    &&& 1 <= s.len() <= 128
    &&& forall|i: int|
        0 <= i < s.len() ==> is_identifier_letter(#[trigger] s[i]) || is_separator(s[i])
    &&& is_identifier_letter(s[0])
    &&& is_identifier_letter(s.last())
}

/// What is said of a text that is no identifier.
pub open spec fn identifier_error(kind: Seq<char>, value: Seq<char>) -> ErrorView {
    error::error(
        ErrorKind::Name,
        "invalid "@ + kind + " '"@ + value
            + "'; use lowercase ASCII segments separated by '-', '_', '/', or '.'"@,
    )
}

/// Accepts an identifier.
fn validate_identifier(value: &str, kind: &str) -> (r: Result<(), PitError>)
    ensures
        error::outcome(r) == if is_identifier(value@) {
            Ok(())
        } else {
            Err(identifier_error(kind@, value@))
        },
{
    let v = chars_of(value);
    let mut valid = v.len() >= 1 && v.len() <= 128;
    let mut i: usize = 0;
    while valid && i < v.len()
        invariant
            v@ == value@,
            i <= v@.len(),
            valid ==> 1 <= v@.len() <= 128 && forall|j: int|
                0 <= j < i ==> is_identifier_letter(#[trigger] v@[j]) || (is_separator(v@[j]) && 0
                    < j < v@.len() - 1),
            !valid ==> !is_identifier(v@),
        decreases v@.len() - i + (if valid { 1int } else { 0 }),
    {
        let c: char = v[i];
        let letter = ('a' <= c && c <= 'z') || ('0' <= c && c <= '9');
        let separator = c == '-' || c == '_' || c == '/' || c == '.';
        if letter || (separator && i > 0 && i + 1 < v.len()) {
            i = i + 1;
        } else {
            assert(!is_identifier(v@)) by {
                assert(v@[i as int] == c);
            }
            valid = false;
        }
    }
    if valid {
        assert(is_identifier_letter(v@[0]));
        assert(is_identifier_letter(v@[v@.len() - 1]));
        return Ok(());
    }
    let mut t = "invalid ".to_owned();
    t.append(kind);
    t.append(" '");
    t.append(value);
    t.append("'; use lowercase ASCII segments separated by '-', '_', '/', or '.'");
    Err(PitError::new(ErrorKind::Name, t))
}

/// A stable identifier of an application-facing interface. It is no enumeration:
/// a new interface or a local adapter needs no new release of a runtime.
#[derive(Debug, PartialEq, Eq, Hash)]
pub struct ApplicationInterface(String);

impl View for ApplicationInterface {
    type V = Seq<char>;

    closed spec fn view(&self) -> Seq<char> {
        self.0@
    }
}

impl Clone for ApplicationInterface {
    fn clone(&self) -> (r: Self)
        ensures
            r@ == self@,
    {
        proof {
            use_type_invariant(self);
        }
        ApplicationInterface(self.0.clone())
    }
}

impl ApplicationInterface {
    /// The interface of a name that is known to be an identifier.
    pub(crate) fn known(value: &str) -> (r: Self)
        requires
            is_identifier(value@),
        ensures
            r@ == value@,
    {
        ApplicationInterface(value.to_owned())
    }

    /// Every interface has an identifier as its name.
    #[verifier::type_invariant]
    spec fn has_identifier(self) -> bool {
        is_identifier(self.0@)
    }

    /// The interface of that name.
    pub fn new(value: &str) -> (r: Result<Self, PitError>)
        ensures
            error::outcome(r) == if is_identifier(value@) {
                Ok(value@)
            } else {
                Err(identifier_error("application interface"@, value@))
            },
    {
        match validate_identifier(value, "application interface") {
            Ok(_) => Ok(ApplicationInterface(value.to_owned())),
            Err(e) => Err(e),
        }
    }

    /// The name of the interface.
    pub fn as_str(&self) -> (r: &str)
        ensures
            r@ == self@,
            is_identifier(r@),
    {
        proof {
            use_type_invariant(self);
        }
        self.0.as_str()
    }
}

impl FromStr for ApplicationInterface {
    type Err = PitError;

    fn from_str(value: &str) -> (r: Result<Self, PitError>)
        ensures
            error::outcome(r) == if is_identifier(value@) {
                Ok(value@)
            } else {
                Err(identifier_error("application interface"@, value@))
            },
    {
        ApplicationInterface::new(value)
    }
}

/// A stable identity of an adapter, such as `python/asgi`, or
/// `local/banana-http` for a local one.
#[derive(Debug, PartialEq, Eq, Hash)]
pub struct AdapterId(String);

impl View for AdapterId {
    type V = Seq<char>;

    closed spec fn view(&self) -> Seq<char> {
        self.0@
    }
}

impl Clone for AdapterId {
    fn clone(&self) -> (r: Self)
        ensures
            r@ == self@,
    {
        proof {
            use_type_invariant(self);
        }
        AdapterId(self.0.clone())
    }
}

impl AdapterId {
    /// The adapter identity of a name that is known to be an identifier.
    pub(crate) fn known(value: &str) -> (r: Self)
        requires
            is_identifier(value@),
        ensures
            r@ == value@,
    {
        AdapterId(value.to_owned())
    }

    /// Every adapter has an identifier as its name.
    #[verifier::type_invariant]
    spec fn has_identifier(self) -> bool {
        is_identifier(self.0@)
    }

    /// The adapter identity of that name.
    pub fn new(value: &str) -> (r: Result<Self, PitError>)
        ensures
            error::outcome(r) == if is_identifier(value@) {
                Ok(value@)
            } else {
                Err(identifier_error("adapter id"@, value@))
            },
    {
        match validate_identifier(value, "adapter id") {
            Ok(_) => Ok(AdapterId(value.to_owned())),
            Err(e) => Err(e),
        }
    }

    /// The name of the adapter.
    pub fn as_str(&self) -> (r: &str)
        ensures
            r@ == self@,
            is_identifier(r@),
    {
        proof {
            use_type_invariant(self);
        }
        self.0.as_str()
    }
}

impl FromStr for AdapterId {
    type Err = PitError;

    fn from_str(value: &str) -> (r: Result<Self, PitError>)
        ensures
            error::outcome(r) == if is_identifier(value@) {
                Ok(value@)
            } else {
                Err(identifier_error("adapter id"@, value@))
            },
    {
        AdapterId::new(value)
    }
}

} // verus!

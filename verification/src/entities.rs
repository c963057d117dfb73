use vstd::prelude::*;
use vstd::string::StringExecFns;

verus! {

/// The closed enumeration of source languages the corpus can detect.
#[derive(Clone, Copy, Debug, PartialEq, Eq, Hash, Structural)]
pub enum Language {
    ASM,
    C,
    Cobol,
    Cpp,
    CSharp,
    CSS,
    D,
    Erlang,
    Fortran,
    FSharp,
    Go,
    Groovy,
    HTML,
    Java,
    JavaScript,
    Kotlin,
    Lua,
    ObjectiveC,
    OCaml,
    Perl,
    PHP,
    Python,
    Ruby,
    Scala,
    Swift,
}

/// The canonical name of a language, used wherever a language is serialized.
pub open spec fn spec_language_name(l: Language) -> Seq<char> {
    match l {
        Language::ASM => "ASM"@,
        Language::C => "C"@,
        Language::Cobol => "Cobol"@,
        Language::Cpp => "C++"@,
        Language::CSharp => "C#"@,
        Language::CSS => "CSS"@,
        Language::D => "D"@,
        Language::Erlang => "Erlang"@,
        Language::Fortran => "Fortran"@,
        Language::FSharp => "F#"@,
        Language::Go => "Go"@,
        Language::Groovy => "Groovy"@,
        Language::HTML => "HTML"@,
        Language::Java => "Java"@,
        Language::JavaScript => "JavaScript"@,
        Language::Kotlin => "Kotlin"@,
        Language::Lua => "Lua"@,
        Language::ObjectiveC => "Objective-C"@,
        Language::OCaml => "OCaml"@,
        Language::Perl => "Perl"@,
        Language::PHP => "PHP"@,
        Language::Python => "Python"@,
        Language::Ruby => "Ruby"@,
        Language::Scala => "Scala"@,
        Language::Swift => "Swift"@,
    }
}

/// Renders a language under its canonical name.
pub fn language_name(l: Language) -> (r: String)
    ensures
        r@ == spec_language_name(l),
{
    match l {
        Language::ASM => String::from_str("ASM"),
        Language::C => String::from_str("C"),
        Language::Cobol => String::from_str("Cobol"),
        Language::Cpp => String::from_str("C++"),
        Language::CSharp => String::from_str("C#"),
        Language::CSS => String::from_str("CSS"),
        Language::D => String::from_str("D"),
        Language::Erlang => String::from_str("Erlang"),
        Language::Fortran => String::from_str("Fortran"),
        Language::FSharp => String::from_str("F#"),
        Language::Go => String::from_str("Go"),
        Language::Groovy => String::from_str("Groovy"),
        Language::HTML => String::from_str("HTML"),
        Language::Java => String::from_str("Java"),
        Language::JavaScript => String::from_str("JavaScript"),
        Language::Kotlin => String::from_str("Kotlin"),
        Language::Lua => String::from_str("Lua"),
        Language::ObjectiveC => String::from_str("Objective-C"),
        Language::OCaml => String::from_str("OCaml"),
        Language::Perl => String::from_str("Perl"),
        Language::PHP => String::from_str("PHP"),
        Language::Python => String::from_str("Python"),
        Language::Ruby => String::from_str("Ruby"),
        Language::Scala => String::from_str("Scala"),
        Language::Swift => String::from_str("Swift"),
    }
}

/// A project-relative file location together with the language detected for
/// that file, which may differ from the project's primary language.
#[derive(Clone)]
pub struct FilePath {
    pub location: String,
    pub language: Language,
}

/// One commit of a project: its message and the instant it was authored,
/// as seconds since the Unix epoch.
#[derive(Clone)]
pub struct Commit {
    pub message: String,
    pub author_email: String,
    pub authored_timestamp: i64,
}

/// A committer or author, unique by identity within a project.
#[derive(Clone)]
pub struct User {
    pub email: String,
    pub name: String,
}

/// An immutable, read-only view of one corpus project.
///
/// The path, commit and user collections are historical snapshots fixed at
/// corpus load; the engine only ever borrows them.
#[derive(Clone)]
pub struct Project {
    pub id: u64,
    pub url: String,
    pub language: Language,
    pub stars: u64,
    pub forks: u64,
    pub size: u64,
    pub created: i64,
    pub is_fork: bool,
    pub has_issues: bool,
    pub license: Option<String>,
    pub paths: Vec<FilePath>,
    pub commits: Vec<Commit>,
    pub users: Vec<User>,
}

} // verus!

use vstd::prelude::*;

use crate::path::file_name;

verus! {

/// One environment variable to set in the test process, in declaration order.
#[derive(Debug, Clone, PartialEq, Eq)]
pub struct EnvVar {
    pub name: String,
    pub value: String,
}

impl View for EnvVar {
    type V = (Seq<char>, Seq<char>);

    open spec fn view(&self) -> (Seq<char>, Seq<char>) {
        (self.name@, self.value@)
    }
}

/// The parsed configuration of one sealed test.
#[derive(Debug, Clone, PartialEq, Eq)]
pub struct SealedTestAttributes {
    /// Paths, relative to the project root, copied into the working directory.
    pub files: Vec<String>,
    /// Variables set in the test process; later entries win.
    pub env: Vec<EnvVar>,
    /// Expression evaluated just before the test body.
    pub before: Option<String>,
    /// Expression evaluated just after the test body.
    pub after: Option<String>,
    /// Command block run before `before`.
    pub cmd_before: Option<String>,
    /// Command block run after `after`.
    pub cmd_after: Option<String>,
}

/// The abstract value of a configuration.
pub struct Attributes {
    pub files: Seq<Seq<char>>,
    pub env: Seq<(Seq<char>, Seq<char>)>,
    pub before: Option<Seq<char>>,
    pub after: Option<Seq<char>>,
    pub cmd_before: Option<Seq<char>>,
    pub cmd_after: Option<Seq<char>>,
}

/// The texts of a sequence of strings.
pub open spec fn texts(v: Seq<String>) -> Seq<Seq<char>> {
    v.map_values(|f: String| f@)
}

/// The (name, value) pairs of a sequence of variables.
pub open spec fn pairs(v: Seq<EnvVar>) -> Seq<(Seq<char>, Seq<char>)> {
    v.map_values(|e: EnvVar| e@)
}

pub open spec fn text_of(o: Option<String>) -> Option<Seq<char>> {
    match o {
        Some(t) => Some(t@),
        None => None,
    }
}

/// The configuration with nothing declared.
pub open spec fn no_attributes() -> Attributes {
    Attributes {
        files: Seq::empty(),
        env: Seq::empty(),
        before: None,
        after: None,
        cmd_before: None,
        cmd_after: None,
    }
}

impl View for SealedTestAttributes {
    type V = Attributes;

    open spec fn view(&self) -> Attributes {
        Attributes {
            files: texts(self.files@),
            env: pairs(self.env@),
            before: text_of(self.before),
            after: text_of(self.after),
            cmd_before: text_of(self.cmd_before),
            cmd_after: text_of(self.cmd_after),
        }
    }
}

/// Every path has a final component to be staged under.
pub open spec fn files_named(files: Seq<Seq<char>>) -> bool {
    forall|i: int| 0 <= i < files.len() ==> (#[trigger] file_name(files[i])) is Some
}

impl SealedTestAttributes {
    /// Every path in `files` can be staged.
    pub open spec fn wf(&self) -> bool {
        files_named(self@.files)
    }

    /// An empty configuration.
    pub fn new() -> (r: SealedTestAttributes)
        ensures
            r@ == no_attributes(),
            r.wf(),
    {
        let r = SealedTestAttributes {
            files: Vec::new(),
            env: Vec::new(),
            before: None,
            after: None,
            cmd_before: None,
            cmd_after: None,
        };
        assert(r@.files =~= Seq::<Seq<char>>::empty());
        assert(r@.env =~= Seq::<(Seq<char>, Seq<char>)>::empty());
        r
    }
}

/// Why a configuration was rejected.
#[derive(Debug, Clone, PartialEq, Eq)]
pub enum ConfigError {
    /// A malformed value or separator; `at` is the offset, in characters, of
    /// the offending token.
    Syntax { at: usize },
    /// A key outside `files`, `env`, `before`, `after`, `cmd_before`, `cmd_after`.
    UnknownAttribute { name: String },
    /// A key given twice.
    DuplicateAttribute { name: String },
}

/// The abstract value of a [`ConfigError`].
pub enum Fault {
    Syntax(int),
    Unknown(Seq<char>),
    Duplicate(Seq<char>),
}

impl View for ConfigError {
    type V = Fault;

    open spec fn view(&self) -> Fault {
        match self {
            ConfigError::Syntax { at } => Fault::Syntax(*at as int),
            ConfigError::UnknownAttribute { name } => Fault::Unknown(name@),
            ConfigError::DuplicateAttribute { name } => Fault::Duplicate(name@),
        }
    }
}

impl ConfigError {
    /// A message naming the error and, for keys, the accepted set.
    pub fn message(&self) -> String {
        match self {
            ConfigError::Syntax { .. } => String::from_str("malformed configuration value"),
            ConfigError::UnknownAttribute { .. } => String::from_str(
                "unexpected attribute, use 'files', 'env', 'before', 'after', 'cmd_before' or 'cmd_after'",
            ),
            ConfigError::DuplicateAttribute { .. } => String::from_str("attribute given twice"),
        }
    }
}

} // verus!

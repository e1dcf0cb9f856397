//! The error that every fallible operation of the library returns.

use vstd::prelude::*;

verus! {

/// What an error is about.
#[derive(Debug, Clone, Copy, PartialEq, Eq, Structural)]
pub enum ErrorKind {
    /// An identifier or a name that is not known or not well formed.
    Name,
    /// An artifact manifest that breaks the manifest contract.
    Manifest,
    /// A document that is not in the format it should be in.
    Document,
    /// A path that leaves the directory it is relative to.
    Path,
    /// An artifact whose size, digest or format is not what its manifest says.
    Integrity,
    /// Bytes that are not a WebAssembly binary.
    Wasm,
    /// An application adapter that cannot take the project.
    Adapter,
    /// A selection of builder, interface or adapter that is missing or ambiguous.
    Selection,
    /// A dependency that the runtime cannot load.
    Compatibility,
    /// A request that a builder does not take.
    Request,
    /// A tool that could not be run or did not succeed.
    Tool,
    /// Something that the surrounding program reported.
    Host,
}

/// An error: what it is about, and the message for the user.
#[derive(Debug, PartialEq, Eq)]
pub struct PitError {
    pub kind: ErrorKind,
    pub text: String,
}

/// The model of an error.
pub struct ErrorView {
    pub kind: ErrorKind,
    pub text: Seq<char>,
}

impl View for PitError {
    type V = ErrorView;

    open spec fn view(&self) -> ErrorView {
        ErrorView { kind: self.kind, text: self.text@ }
    }
}

/// The error of this kind with this message.
pub open spec fn error(kind: ErrorKind, text: Seq<char>) -> ErrorView {
    ErrorView { kind, text }
}

/// The model of what a fallible operation returns.
pub open spec fn outcome<T: View>(r: Result<T, PitError>) -> Result<T::V, ErrorView> {
    match r {
        Ok(v) => Ok(v@),
        Err(e) => Err(e@),
    }
}

impl PitError {
    /// The error of this kind with this message.
    pub fn new(kind: ErrorKind, text: String) -> (e: PitError)
        ensures
            e@ == error(kind, text@),
    {
        PitError { kind, text }
    }

    /// The error of this kind with this message.
    pub fn fixed(kind: ErrorKind, text: &str) -> (e: PitError)
        ensures
            e@ == error(kind, text@),
    {
        PitError { kind, text: text.to_owned() }
    }

    /// The error of this kind with `name` between `before` and `after` as its message.
    pub fn naming(kind: ErrorKind, before: &str, name: &str, after: &str) -> (e: PitError)
        ensures
            e@ == error(kind, before@ + name@ + after@),
    {
        let mut text = before.to_owned();
        text.append(name);
        text.append(after);
        PitError { kind, text }
    }

    /// The message for the user.
    pub fn message(&self) -> (r: &str)
        ensures
            r@ == self@.text,
    {
        self.text.as_str()
    }
}

/// The error of this kind with `path` after `before` as its message.
pub fn naming_path(kind: ErrorKind, before: &str, path: &str) -> (e: PitError)
    ensures
        e@ == error(kind, before@ + path@),
{
    let mut text = before.to_owned();
    text.append(path);
    PitError { kind, text }
}

} // verus!

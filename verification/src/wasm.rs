//! The shape of a WebAssembly binary.

use crate::artifact::ArtifactFormat;
use crate::error;
use crate::error::{naming_path, ErrorKind, ErrorView, PitError};
use vstd::prelude::*;

verus! {

/// The bytes that reading a file gave.
pub open spec fn bytes_view(contents: Option<&[u8]>) -> Option<Seq<u8>> {
    match contents {
        Some(b) => Some(b@),
        None => None,
    }
}

/// What one payload of a binary tells of it.
#[derive(Debug, Clone, Copy, PartialEq, Eq, Structural)]
pub enum PayloadKind {
    /// The version header of a core module.
    Module,
    /// The version header of a component.
    Component,
    /// Anything else.
    Other,
}

/// The outcome of every payload that a parser finds in `bytes`, in order; an
/// error is `None` and ends the list.
pub uninterp spec fn wasm_payloads(bytes: Seq<u8>) -> Seq<Option<PayloadKind>>;

/// The eight bytes that a core module starts with.
pub open spec fn module_header() -> Seq<u8> {
    seq![0u8, 0x61u8, 0x73u8, 0x6du8, 1u8, 0u8, 0u8, 0u8]
}

/// The eight bytes that a component starts with.
pub open spec fn component_header() -> Seq<u8> {
    seq![0u8, 0x61u8, 0x73u8, 0x6du8, 0x0du8, 0u8, 1u8, 0u8]
}

/// What the version header at the start of `bytes` says.
pub open spec fn header_kind(bytes: Seq<u8>) -> Option<PayloadKind> {
    if module_header().is_prefix_of(bytes) {
        Some(PayloadKind::Module)
    } else if component_header().is_prefix_of(bytes) {
        Some(PayloadKind::Component)
    } else {
        None
    }
}

/// `wasmparser::Parser::parse_all` from offset 0 yields the payloads of a
/// binary, or an error, after which it stops. What it yields depends on the
/// bytes alone. The first item is always there: the version header that the
/// first eight bytes spell, or an error if they spell none.
#[verifier::external_body]
fn parse_payloads(bytes: &[u8]) -> (r: Vec<Option<PayloadKind>>)
    ensures
        r@ == wasm_payloads(bytes@),
        r@.len() > 0,
        r@[0] == header_kind(bytes@),
{
    wasmparser::Parser::new(0).parse_all(bytes).map(|payload| match payload {
        Ok(wasmparser::Payload::Version { encoding: wasmparser::Encoding::Module, .. }) => {
            Some(PayloadKind::Module)
        },
        Ok(wasmparser::Payload::Version { encoding: wasmparser::Encoding::Component, .. }) => {
            Some(PayloadKind::Component)
        },
        Ok(_) => Some(PayloadKind::Other),
        Err(_) => None,
    }).collect()
}

/// The format that the first version header among `payloads` gives.
pub open spec fn format_in(path: Seq<char>, payloads: Seq<Option<PayloadKind>>) -> Result<
    ArtifactFormat,
    ErrorView,
>
    decreases payloads.len(),
{
    if payloads.len() == 0 {
        Err(
            error::error(
                ErrorKind::Wasm,
                "WASM artifact has no WebAssembly version header: "@ + path,
            ),
        )
    } else {
        match payloads[0] {
            None => Err(error::error(ErrorKind::Wasm, "invalid WebAssembly artifact "@ + path)),
            Some(PayloadKind::Module) => Ok(ArtifactFormat::CoreModule),
            Some(PayloadKind::Component) => Ok(ArtifactFormat::Component),
            Some(PayloadKind::Other) => format_in(path, payloads.drop_first()),
        }
    }
}

/// The format that the first version header among `payloads` gives.
pub fn format_of_payloads(path: &str, payloads: &[Option<PayloadKind>]) -> (r: Result<
    ArtifactFormat,
    PitError,
>)
    ensures
        error::outcome(r) == format_in(path@, payloads@),
{
    let mut i: usize = 0;
    assert(payloads@.skip(0) =~= payloads@);
    while i < payloads.len()
        invariant
            i <= payloads@.len(),
            format_in(path@, payloads@) == format_in(path@, payloads@.skip(i as int)),
        decreases payloads@.len() - i,
    {
        assert(payloads@.skip(i as int).drop_first() =~= payloads@.skip(i + 1));
        match payloads[i] {
            None => {
                return Err(naming_path(ErrorKind::Wasm, "invalid WebAssembly artifact ", path));
            },
            Some(PayloadKind::Module) => {
                return Ok(ArtifactFormat::CoreModule);
            },
            Some(PayloadKind::Component) => {
                return Ok(ArtifactFormat::Component);
            },
            Some(PayloadKind::Other) => {},
        }
        i = i + 1;
    }
    Err(naming_path(ErrorKind::Wasm, "WASM artifact has no WebAssembly version header: ", path))
}

/// The format of the artifact at `path`; `contents` is what reading it gave.
pub open spec fn detected_format(path: Seq<char>, contents: Option<Seq<u8>>) -> Result<
    ArtifactFormat,
    ErrorView,
> {
    match contents {
        None => Err(error::error(ErrorKind::Host, "failed to read "@ + path)),
        Some(bytes) => if bytes.len() == 0 {
            Err(error::error(ErrorKind::Wasm, "WASM artifact is empty: "@ + path))
        } else {
            match header_kind(bytes) {
                Some(PayloadKind::Module) => Ok(ArtifactFormat::CoreModule),
                Some(PayloadKind::Component) => Ok(ArtifactFormat::Component),
                _ => Err(error::error(ErrorKind::Wasm, "invalid WebAssembly artifact "@ + path)),
            }
        },
    }
}

/// The format of the artifact at `path`; `contents` is what reading it gave.
pub fn detect_artifact_format(path: &str, contents: Option<&[u8]>) -> (r: Result<
    ArtifactFormat,
    PitError,
>)
    ensures
        error::outcome(r) == detected_format(path@, bytes_view(contents)),
{
    match contents {
        None => Err(naming_path(ErrorKind::Host, "failed to read ", path)),
        Some(bytes) => if bytes.len() == 0 {
            Err(naming_path(ErrorKind::Wasm, "WASM artifact is empty: ", path))
        } else {
            let payloads = parse_payloads(bytes);
            format_of_payloads(path, payloads.as_slice())
        },
    }
}

/// Whether every payload could be read.
pub open spec fn payloads_are_valid(payloads: Seq<Option<PayloadKind>>) -> bool {
    forall|i: int| 0 <= i < payloads.len() ==> (#[trigger] payloads[i]) is Some
}

/// Accepts payloads that could all be read.
pub fn check_payloads(path: &str, payloads: &[Option<PayloadKind>]) -> (r: Result<(), PitError>)
    ensures
        error::outcome(r) == if payloads_are_valid(payloads@) {
            Ok(())
        } else {
            Err(error::error(ErrorKind::Wasm, "invalid WebAssembly artifact "@ + path@))
        },
{
    let mut i: usize = 0;
    while i < payloads.len()
        invariant
            i <= payloads@.len(),
            forall|j: int| 0 <= j < i ==> (#[trigger] payloads@[j]) is Some,
        decreases payloads@.len() - i,
    {
        if payloads[i].is_none() {
            assert(payloads@[i as int] is None);
            return Err(naming_path(ErrorKind::Wasm, "invalid WebAssembly artifact ", path));
        }
        i = i + 1;
    }
    Ok(())
}

/// Accepts an artifact that is a WebAssembly binary; `contents` is what reading
/// the file at `path` gave.
pub fn validate_wasm(path: &str, contents: Option<&[u8]>) -> (r: Result<(), PitError>)
    ensures
        error::outcome(r) == match bytes_view(contents) {
            None => Err(error::error(ErrorKind::Host, "failed to read WASM artifact "@ + path@)),
            Some(bytes) => if bytes.len() == 0 {
                Err(error::error(ErrorKind::Wasm, "WASM artifact is empty: "@ + path@))
            } else if payloads_are_valid(wasm_payloads(bytes)) {
                Ok(())
            } else {
                Err(error::error(ErrorKind::Wasm, "invalid WebAssembly artifact "@ + path@))
            },
        },
        r is Ok ==> bytes_view(contents) is Some && header_kind(bytes_view(contents)->0) is Some,
{
    match contents {
        None => Err(naming_path(ErrorKind::Host, "failed to read WASM artifact ", path)),
        Some(bytes) => if bytes.len() == 0 {
            Err(naming_path(ErrorKind::Wasm, "WASM artifact is empty: ", path))
        } else {
            let payloads = parse_payloads(bytes);
            check_payloads(path, payloads.as_slice())
        },
    }
}

} // verus!

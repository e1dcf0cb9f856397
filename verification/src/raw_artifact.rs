//! The manifest of an artifact that is provided ready to run.

use crate::artifact;
use crate::artifact::{
    format_name, ArtifactFormat, ArtifactManifest, ArtifactSpec, ArtifactSpecView, BuildSpec,
    BuildSpecView, Capability, ComponentWorld, Entrypoint, ManifestView, RuntimeAbi, RuntimeSpec,
    RuntimeSpecView, SCHEMA_VERSION, WASI_HTTP_PROXY_WORLD, WASI_PREVIEW1_ENTRYPOINT,
};
use crate::builder;
use crate::builder::{name_artifact, wasm_file};
use crate::cache;
use crate::digest;
use crate::digest::sha256_hex;
use crate::error;
use crate::error::{ErrorKind, ErrorView, PitError};
use crate::language;
use crate::paths;
use crate::paths::path_join;
use crate::request::{BuildOutput, BuildRequest, OutputView, RequestView, ToolchainInfo, ToolchainView};
use crate::text;
use crate::text::{text_eq, to_decimal};
use crate::validation;
use vstd::prelude::*;

verus! {

/// The interface of a provided artifact, where none is asked for.
pub open spec fn raw_interface(format: ArtifactFormat) -> Seq<char> {
    match format {
        ArtifactFormat::Component => "wasi-http"@,
        ArtifactFormat::CoreModule => "wasi-cli"@,
    }
}

/// The runtime interface that a format is loaded by.
pub open spec fn raw_abi(format: ArtifactFormat) -> Seq<char> {
    match format {
        ArtifactFormat::Component => "wasi-preview2"@,
        ArtifactFormat::CoreModule => "wasi-preview1"@,
    }
}

/// The target that a format is compiled for.
pub open spec fn raw_target(format: ArtifactFormat) -> Seq<char> {
    match format {
        ArtifactFormat::Component => "wasm32-wasip2"@,
        ArtifactFormat::CoreModule => "wasm32-wasip1"@,
    }
}

/// The world of a format.
pub open spec fn raw_world(format: ArtifactFormat) -> Option<ComponentWorld> {
    match format {
        ArtifactFormat::Component => Some(ComponentWorld::WasiHttpProxy),
        ArtifactFormat::CoreModule => None,
    }
}

/// The entrypoint of a format.
pub open spec fn raw_entrypoint(format: ArtifactFormat) -> Seq<char> {
    match format {
        ArtifactFormat::Component => WASI_HTTP_PROXY_WORLD@,
        ArtifactFormat::CoreModule => WASI_PREVIEW1_ENTRYPOINT@,
    }
}

/// The name of a provided artifact.
pub open spec fn raw_name(project_dir: Seq<char>) -> Seq<char> {
    builder::artifact_name(project_dir, "raw-component"@)
}

/// Where provided artifacts are put.
pub open spec fn raw_directory(project_dir: Seq<char>) -> Seq<char> {
    paths::join_path(project_dir, ".pit/build"@)
}

/// Where a provided artifact is put.
pub open spec fn raw_place(project_dir: Seq<char>) -> Seq<char> {
    paths::join_path(raw_directory(project_dir), raw_name(project_dir) + ".wasm"@)
}

/// Where a provided artifact is put for a moment.
pub open spec fn raw_temporary(project_dir: Seq<char>, process: u32) -> Seq<char> {
    paths::join_path(
        raw_directory(project_dir),
        "."@ + raw_name(project_dir) + "."@ + text::decimal(process as nat) + ".tmp"@,
    )
}

/// Where a provided artifact is put.
pub(crate) fn place_raw(project_dir: &str) -> (r: String)
    ensures
        r@ == raw_place(project_dir@),
{
    path_join(
        path_join(project_dir, ".pit/build").as_str(),
        wasm_file(name_artifact(project_dir, "raw-component").as_str()).as_str(),
    )
}

/// Where a provided artifact is put for a moment.
pub(crate) fn place_temporary(project_dir: &str, process: u32) -> (r: String)
    ensures
        r@ == raw_temporary(project_dir@, process),
{
    let mut file = ".".to_owned();
    file.append(name_artifact(project_dir, "raw-component").as_str());
    file.append(".");
    file.append(to_decimal(process as u64).as_str());
    file.append(".tmp");
    path_join(path_join(project_dir, ".pit/build").as_str(), file.as_str())
}

/// The name of a world in messages.
pub open spec fn world_name(world: ComponentWorld) -> Seq<char> {
    match world {
        ComponentWorld::WasiCliCommand => "WasiCliCommand"@,
        ComponentWorld::WasiHttpProxy => "WasiHttpProxy"@,
    }
}

/// The outcome of holding the format of a provided artifact against a request.
pub open spec fn raw_checked(r: RequestView, format: ArtifactFormat) -> Result<(), ErrorView> {
    if r.abi != raw_abi(format) {
        Err(
            error::error(
                ErrorKind::Request,
                "raw "@ + artifact::format_text(format) + " requires "@ + raw_abi(format)
                    + "; select the matching --abi"@,
            ),
        )
    } else {
        match r.world {
            Some(world) => if raw_world(format) != Some(world) {
                Err(
                    error::error(
                        ErrorKind::Request,
                        "raw artifact format does not implement requested world "@ + world_name(
                            world,
                        ),
                    ),
                )
            } else {
                Ok(())
            },
            None => Ok(()),
        }
    }
}

/// Holds the format of a provided artifact against a request.
pub fn check_raw_artifact(request: &BuildRequest, format: ArtifactFormat) -> (r: Result<
    (),
    PitError,
>)
    ensures
        error::outcome(r) == raw_checked(request@, format),
{
    let abi = match format {
        ArtifactFormat::Component => "wasi-preview2",
        ArtifactFormat::CoreModule => "wasi-preview1",
    };
    if !text_eq(request.abi.as_str(), abi) {
        let mut t = "raw ".to_owned();
        t.append(format_name(format));
        t.append(" requires ");
        t.append(abi);
        t.append("; select the matching --abi");
        return Err(PitError::new(ErrorKind::Request, t));
    }
    if let Some(world) = request.world {
        let fits = match format {
            ArtifactFormat::Component => world == ComponentWorld::WasiHttpProxy,
            ArtifactFormat::CoreModule => false,
        };
        if !fits {
            let name = match world {
                ComponentWorld::WasiCliCommand => "WasiCliCommand",
                ComponentWorld::WasiHttpProxy => "WasiHttpProxy",
            };
            let mut t = "raw artifact format does not implement requested world ".to_owned();
            t.append(name);
            return Err(PitError::new(ErrorKind::Request, t));
        }
    }
    Ok(())
}

/// The language that the manifest of a provided artifact names.
pub open spec fn raw_language(r: RequestView) -> Seq<char> {
    match r.language {
        Some(l) => language::language_text(l),
        None => "raw"@,
    }
}

/// The manifest of a provided artifact with these contents.
pub open spec fn raw_manifest(
    r: RequestView,
    format: ArtifactFormat,
    fingerprint: Seq<char>,
    contents: Seq<u8>,
) -> ManifestView {
    ManifestView {
        schema_version: SCHEMA_VERSION,
        artifact: ArtifactSpecView {
            name: raw_name(r.project_dir),
            path: paths::join_path("build"@, raw_name(r.project_dir) + ".wasm"@),
            sha256: digest::sha256_text(contents),
            size_bytes: contents.len() as u64,
        },
        build: BuildSpecView {
            language: raw_language(r),
            target: raw_target(format),
            profile: r.profile,
            fingerprint,
            toolchain: Some("provided"@),
            toolchain_version: Some("raw-artifact"@),
            application_interface: r.application_interface,
            adapter: None,
            adapter_digest: None,
        },
        runtime: RuntimeSpecView {
            abi: raw_abi(format),
            entrypoint: raw_entrypoint(format),
            custom: false,
            format,
            world: raw_world(format),
        },
        execution: r.execution_defaults,
        capabilities: Seq::empty(),
    }
}

/// What wrapping a provided artifact with these contents gives.
pub open spec fn raw_output(
    r: RequestView,
    format: ArtifactFormat,
    fingerprint: Seq<char>,
    contents: Seq<u8>,
) -> OutputView {
    OutputView {
        manifest: raw_manifest(r, format, fingerprint, contents),
        artifact_path: raw_place(r.project_dir),
        toolchain: ToolchainView {
            name: "provided"@,
            version: "raw-artifact"@,
            compiler: None,
            componentizer: None,
            target: raw_target(format),
        },
    }
}

/// Wraps a provided artifact with these contents.
pub fn build_raw_artifact(
    request: &BuildRequest,
    format: ArtifactFormat,
    fingerprint: &str,
    contents: &[u8],
) -> (r: BuildOutput)
    ensures
        r@ == raw_output(request@, format, fingerprint@, contents@),
{
    let name = name_artifact(request.project_dir.as_str(), "raw-component");
    let (abi, entrypoint, world, target) = match format {
        ArtifactFormat::Component => (
            RuntimeAbi::wasi_preview2(),
            Entrypoint::WasiHttpProxy,
            Some(ComponentWorld::WasiHttpProxy),
            "wasm32-wasip2",
        ),
        ArtifactFormat::CoreModule => (
            RuntimeAbi::wasi_preview1(),
            Entrypoint::wasi_preview1(),
            None,
            "wasm32-wasip1",
        ),
    };
    let capabilities: Vec<Capability> = Vec::new();
    assert(artifact::capability_names(capabilities@) =~= Seq::<Seq<char>>::empty());
    let manifest = ArtifactManifest {
        schema_version: SCHEMA_VERSION,
        artifact: ArtifactSpec {
            path: path_join("build", wasm_file(name.as_str()).as_str()),
            name,
            sha256: sha256_hex(contents),
            size_bytes: contents.len() as u64,
        },
        build: BuildSpec {
            language: match request.language {
                Some(l) => l.as_str().to_owned(),
                None => "raw".to_owned(),
            },
            target: target.to_owned(),
            profile: request.profile,
            fingerprint: fingerprint.to_owned(),
            toolchain: Some("provided".to_owned()),
            toolchain_version: Some("raw-artifact".to_owned()),
            application_interface: match &request.application_interface {
                Some(i) => Some(i.as_str().to_owned()),
                None => None,
            },
            adapter: None,
            adapter_digest: None,
        },
        runtime: RuntimeSpec { abi, entrypoint, format, world },
        execution: request.execution_defaults,
        capabilities,
    };
    BuildOutput {
        manifest,
        artifact_path: place_raw(request.project_dir.as_str()),
        toolchain: ToolchainInfo {
            name: "provided".to_owned(),
            version: "raw-artifact".to_owned(),
            compiler: None,
            componentizer: None,
            target: target.to_owned(),
        },
    }
}

/// A provided artifact that a request takes is found again by the same request,
/// unless the request names an adapter, which provided artifacts do without.
pub proof fn wrapped_artifact_is_found_again(
    r: RequestView,
    format: ArtifactFormat,
    fingerprint: Seq<char>,
    contents: Seq<u8>,
)
    requires
        raw_checked(r, format) is Ok,
        r.adapter is None,
        r.adapter_workspace is None,
    ensures
        cache::cache_fits(raw_manifest(r, format, fingerprint, contents), r, fingerprint),
{
    validation::lemma_abi_names();
}

} // verus!

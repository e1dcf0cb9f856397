//! The canonical, versioned PitFast project artifact contract.

use crate::error;
use crate::error::{ErrorKind, PitError};
use crate::paths;
use crate::paths::path_join;
use crate::text;
use crate::text::{clone_text, text_eq};
use std::str::FromStr;
use vstd::prelude::*;

verus! {

/// The version of the manifest schema that this library reads and writes.
pub const SCHEMA_VERSION: u32 = 1;

/// The entrypoint of a WASI Preview 1 core module.
pub const WASI_PREVIEW1_ENTRYPOINT: &'static str = "_start";

/// The entrypoint of a WASI Preview 2 command.
pub const WASI_PREVIEW2_ENTRYPOINT: &'static str = "wasi:cli/command";

/// The world, and entrypoint, of a WASI HTTP component.
pub const WASI_HTTP_PROXY_WORLD: &'static str = "wasi:http/proxy";

/// Where the manifest of a project stands.
pub open spec fn manifest_location(project_dir: Seq<char>) -> Seq<char> {
    paths::join_path(project_dir, ".pit/artifact.json"@)
}

/// Where the manifest of a project stands.
pub fn manifest_path(project_dir: &str) -> (r: String)
    ensures
        r@ == manifest_location(project_dir@),
{
    path_join(project_dir, ".pit/artifact.json")
}

/// The binary interface that an artifact expects of its runtime. A name that no
/// runtime supports can still be held, so that a manifest stays readable.
#[derive(Debug, PartialEq, Eq)]
pub struct RuntimeAbi(pub String);

impl View for RuntimeAbi {
    type V = Seq<char>;

    open spec fn view(&self) -> Seq<char> {
        self.0@
    }
}

impl Clone for RuntimeAbi {
    fn clone(&self) -> (r: Self)
        ensures
            r@ == self@,
    {
        RuntimeAbi(self.0.clone())
    }
}

/// The compilation target of a runtime interface.
pub open spec fn target_of(abi: Seq<char>) -> Option<Seq<char>> {
    if abi == "wasi-preview1"@ {
        Some("wasm32-wasip1"@)
    } else if abi == "wasi-preview2"@ {
        Some("wasm32-wasip2"@)
    } else {
        None
    }
}

/// Whether a runtime supports the interface.
pub open spec fn abi_supported(abi: Seq<char>) -> bool {
    abi == "wasi-preview1"@ || abi == "wasi-preview2"@
}

impl RuntimeAbi {
    /// WASI Preview 1.
    pub fn wasi_preview1() -> (r: Self)
        ensures
            r@ == "wasi-preview1"@,
    {
        RuntimeAbi("wasi-preview1".to_owned())
    }

    /// WASI Preview 2.
    pub fn wasi_preview2() -> (r: Self)
        ensures
            r@ == "wasi-preview2"@,
    {
        RuntimeAbi("wasi-preview2".to_owned())
    }

    /// The name of the interface.
    pub fn as_str(&self) -> (r: &str)
        ensures
            r@ == self@,
    {
        self.0.as_str()
    }

    /// The compilation target of the interface.
    pub fn target(&self) -> (r: Option<&'static str>)
        ensures
            match r {
                Some(t) => target_of(self@) == Some(t@),
                None => target_of(self@) is None,
            },
    {
        if text_eq(self.as_str(), "wasi-preview1") {
            Some("wasm32-wasip1")
        } else if text_eq(self.as_str(), "wasi-preview2") {
            Some("wasm32-wasip2")
        } else {
            None
        }
    }

    /// Whether a runtime supports the interface.
    pub fn is_supported(&self) -> (r: bool)
        ensures
            r == abi_supported(self@),
    {
        text_eq(self.as_str(), "wasi-preview1") || text_eq(self.as_str(), "wasi-preview2")
    }

    /// The supported interface of that name.
    pub fn from_str(value: &str) -> (r: Result<Self, PitError>)
        ensures
            match r {
                Ok(abi) => abi_supported(value@) && abi@ == value@,
                Err(e) => !abi_supported(value@) && e@ == error::error(
                    ErrorKind::Name,
                    "unsupported runtime ABI '"@ + value@
                        + "'; expected wasi-preview1 or wasi-preview2"@,
                ),
            },
    {
        if text_eq(value, "wasi-preview1") || text_eq(value, "wasi-preview2") {
            Ok(RuntimeAbi(value.to_owned()))
        } else {
            Err(
                PitError::naming(
                    ErrorKind::Name,
                    "unsupported runtime ABI '",
                    value,
                    "'; expected wasi-preview1 or wasi-preview2",
                ),
            )
        }
    }
}

impl FromStr for RuntimeAbi {
    type Err = PitError;

    fn from_str(value: &str) -> (r: Result<Self, PitError>)
        ensures
            match r {
                Ok(abi) => abi_supported(value@) && abi@ == value@,
                Err(e) => !abi_supported(value@) && e@ == error::error(
                    ErrorKind::Name,
                    "unsupported runtime ABI '"@ + value@
                        + "'; expected wasi-preview1 or wasi-preview2"@,
                ),
            },
    {
        RuntimeAbi::from_str(value)
    }
}

/// Something that an artifact expects its host to offer.
#[derive(Debug, PartialEq, Eq)]
pub struct Capability(pub String);

impl View for Capability {
    type V = Seq<char>;

    open spec fn view(&self) -> Seq<char> {
        self.0@
    }
}

impl Clone for Capability {
    fn clone(&self) -> (r: Self)
        ensures
            r@ == self@,
    {
        Capability(self.0.clone())
    }
}

/// Whether hosts offer the capability.
pub open spec fn capability_supported(name: Seq<char>) -> bool {
    name == "stdio"@ || name == "args"@ || name == "env"@
}

impl Capability {
    /// Standard input and output.
    pub fn stdio() -> (r: Self)
        ensures
            r@ == "stdio"@,
    {
        Capability("stdio".to_owned())
    }

    /// Command-line arguments.
    pub fn args() -> (r: Self)
        ensures
            r@ == "args"@,
    {
        Capability("args".to_owned())
    }

    /// Environment variables.
    pub fn env() -> (r: Self)
        ensures
            r@ == "env"@,
    {
        Capability("env".to_owned())
    }

    /// The name of the capability.
    pub fn as_str(&self) -> (r: &str)
        ensures
            r@ == self@,
    {
        self.0.as_str()
    }

    /// Whether hosts offer the capability.
    pub fn is_supported(&self) -> (r: bool)
        ensures
            r == capability_supported(self@),
    {
        text_eq(self.as_str(), "stdio") || text_eq(self.as_str(), "args") || text_eq(
            self.as_str(),
            "env",
        )
    }
}

/// The shape of a WebAssembly artifact.
#[derive(Debug, Clone, Copy, PartialEq, Eq, Structural)]
pub enum ArtifactFormat {
    CoreModule,
    Component,
}

impl View for ArtifactFormat {
    type V = ArtifactFormat;

    open spec fn view(&self) -> ArtifactFormat {
        *self
    }
}

/// The name of a format.
pub open spec fn format_text(format: ArtifactFormat) -> Seq<char> {
    match format {
        ArtifactFormat::CoreModule => "core-module"@,
        ArtifactFormat::Component => "component"@,
    }
}

/// The name of a format.
pub fn format_name(format: ArtifactFormat) -> (r: &'static str)
    ensures
        r@ == format_text(format),
{
    match format {
        ArtifactFormat::CoreModule => "core-module",
        ArtifactFormat::Component => "component",
    }
}

/// The format that a manifest without one has.
pub fn default_artifact_format() -> (r: ArtifactFormat)
    ensures
        r == ArtifactFormat::CoreModule,
{
    ArtifactFormat::CoreModule
}

/// Where execution of an artifact begins.
#[derive(Debug, PartialEq, Eq)]
pub enum Entrypoint {
    WasiPreview1Start,
    WasiPreview2Command,
    WasiHttpProxy,
    Custom(String),
}

impl View for Entrypoint {
    type V = Seq<char>;

    open spec fn view(&self) -> Seq<char> {
        match *self {
            Entrypoint::WasiPreview1Start => WASI_PREVIEW1_ENTRYPOINT@,
            Entrypoint::WasiPreview2Command => WASI_PREVIEW2_ENTRYPOINT@,
            Entrypoint::WasiHttpProxy => WASI_HTTP_PROXY_WORLD@,
            Entrypoint::Custom(value) => value@,
        }
    }
}

impl Clone for Entrypoint {
    fn clone(&self) -> (r: Self)
        ensures
            r@ == self@,
            r is Custom == self is Custom,
    {
        match self {
            Entrypoint::WasiPreview1Start => Entrypoint::WasiPreview1Start,
            Entrypoint::WasiPreview2Command => Entrypoint::WasiPreview2Command,
            Entrypoint::WasiHttpProxy => Entrypoint::WasiHttpProxy,
            Entrypoint::Custom(value) => Entrypoint::Custom(value.clone()),
        }
    }
}

/// Whether a name is that of a standard entrypoint.
pub open spec fn is_standard_entrypoint(name: Seq<char>) -> bool {
    name == WASI_PREVIEW1_ENTRYPOINT@ || name == WASI_PREVIEW2_ENTRYPOINT@ || name
        == WASI_HTTP_PROXY_WORLD@
}

/// Whether an entrypoint is the one that its name stands for: a custom one has no
/// standard name.
pub open spec fn is_canonical_entrypoint(e: Entrypoint) -> bool {
    e is Custom <==> !is_standard_entrypoint(e@)
}

/// Entrypoints that are those their names stand for are alike where their names are.
pub proof fn names_tell_entrypoints_apart(a: Entrypoint, b: Entrypoint)
    requires
        is_canonical_entrypoint(a),
        is_canonical_entrypoint(b),
        a@ == b@,
    ensures
        a is WasiPreview1Start <==> b is WasiPreview1Start,
        a is WasiPreview2Command <==> b is WasiPreview2Command,
        a is WasiHttpProxy <==> b is WasiHttpProxy,
        a is Custom <==> b is Custom,
{
    reveal_strlit("_start");
    reveal_strlit("wasi:cli/command");
    reveal_strlit("wasi:http/proxy");
    assert(WASI_PREVIEW1_ENTRYPOINT@.len() == 6);
    assert(WASI_PREVIEW2_ENTRYPOINT@.len() == 16);
    assert(WASI_HTTP_PROXY_WORLD@.len() == 15);
}

impl Entrypoint {
    /// The entrypoint of a WASI Preview 1 core module.
    pub fn wasi_preview1() -> (r: Self)
        ensures
            r is WasiPreview1Start,
            r@ == WASI_PREVIEW1_ENTRYPOINT@,
    {
        Entrypoint::WasiPreview1Start
    }

    /// The entrypoint of a WASI Preview 2 command.
    pub fn wasi_preview2() -> (r: Self)
        ensures
            r is WasiPreview2Command,
            r@ == WASI_PREVIEW2_ENTRYPOINT@,
    {
        Entrypoint::WasiPreview2Command
    }

    /// The name of the entrypoint.
    pub fn as_str(&self) -> (r: &str)
        ensures
            r@ == self@,
    {
        match self {
            Entrypoint::WasiPreview1Start => WASI_PREVIEW1_ENTRYPOINT,
            Entrypoint::WasiPreview2Command => WASI_PREVIEW2_ENTRYPOINT,
            Entrypoint::WasiHttpProxy => WASI_HTTP_PROXY_WORLD,
            Entrypoint::Custom(value) => value.as_str(),
        }
    }

    /// The entrypoint of that name; a name that is not standard is a custom one.
    pub fn from_string(value: String) -> (r: Self)
        ensures
            r@ == value@,
            is_canonical_entrypoint(r),
    {
        if text_eq(value.as_str(), WASI_PREVIEW1_ENTRYPOINT) {
            Entrypoint::wasi_preview1()
        } else if text_eq(value.as_str(), WASI_PREVIEW2_ENTRYPOINT) {
            Entrypoint::wasi_preview2()
        } else if text_eq(value.as_str(), WASI_HTTP_PROXY_WORLD) {
            Entrypoint::WasiHttpProxy
        } else {
            Entrypoint::Custom(value)
        }
    }
}

/// The standard Component Model world that a component implements.
#[derive(Debug, Clone, Copy, PartialEq, Eq, Structural)]
pub enum ComponentWorld {
    WasiCliCommand,
    WasiHttpProxy,
}

/// The name of a world.
pub open spec fn world_text(world: ComponentWorld) -> Seq<char> {
    match world {
        ComponentWorld::WasiCliCommand => WASI_PREVIEW2_ENTRYPOINT@,
        ComponentWorld::WasiHttpProxy => WASI_HTTP_PROXY_WORLD@,
    }
}

impl ComponentWorld {
    /// The name of the world.
    pub fn as_str(self) -> (r: &'static str)
        ensures
            r@ == world_text(self),
    {
        match self {
            ComponentWorld::WasiCliCommand => WASI_PREVIEW2_ENTRYPOINT,
            ComponentWorld::WasiHttpProxy => WASI_HTTP_PROXY_WORLD,
        }
    }

    /// The world of that name.
    pub fn from_str(value: &str) -> (r: Result<Self, PitError>)
        ensures
            match r {
                Ok(world) => world_text(world) == value@,
                Err(e) => value@ != WASI_PREVIEW2_ENTRYPOINT@ && value@ != WASI_HTTP_PROXY_WORLD@
                    && e@ == error::error(
                    ErrorKind::Name,
                    "unsupported Component Model world '"@ + value@ + "'"@,
                ),
            },
    {
        if text_eq(value, WASI_PREVIEW2_ENTRYPOINT) {
            Ok(ComponentWorld::WasiCliCommand)
        } else if text_eq(value, WASI_HTTP_PROXY_WORLD) {
            Ok(ComponentWorld::WasiHttpProxy)
        } else {
            Err(
                PitError::naming(
                    ErrorKind::Name,
                    "unsupported Component Model world '",
                    value,
                    "'",
                ),
            )
        }
    }
}

impl FromStr for ComponentWorld {
    type Err = PitError;

    fn from_str(value: &str) -> (r: Result<Self, PitError>)
        ensures
            match r {
                Ok(world) => world_text(world) == value@,
                Err(e) => value@ != WASI_PREVIEW2_ENTRYPOINT@ && value@ != WASI_HTTP_PROXY_WORLD@
                    && e@ == error::error(
                    ErrorKind::Name,
                    "unsupported Component Model world '"@ + value@ + "'"@,
                ),
            },
    {
        ComponentWorld::from_str(value)
    }
}

/// How much a build optimises.
#[derive(Debug, Clone, Copy, PartialEq, Eq, Structural)]
pub enum BuildProfile {
    Debug,
    Release,
}

/// The name of a profile.
pub open spec fn profile_text(profile: BuildProfile) -> Seq<char> {
    match profile {
        BuildProfile::Debug => "debug"@,
        BuildProfile::Release => "release"@,
    }
}

impl BuildProfile {
    /// The directory that Cargo builds the profile in.
    pub fn cargo_directory(self) -> (r: &'static str)
        ensures
            r@ == profile_text(self),
    {
        match self {
            BuildProfile::Debug => "debug",
            BuildProfile::Release => "release",
        }
    }

    /// The name of the profile.
    pub fn as_str(self) -> (r: &'static str)
        ensures
            r@ == profile_text(self),
    {
        match self {
            BuildProfile::Debug => "debug",
            BuildProfile::Release => "release",
        }
    }
}

/// The artifact file and what identifies its contents.
#[derive(Debug, PartialEq, Eq)]
pub struct ArtifactSpec {
    pub name: String,
    pub path: String,
    pub sha256: String,
    pub size_bytes: u64,
}

/// The model of an `ArtifactSpec`.
pub struct ArtifactSpecView {
    pub name: Seq<char>,
    pub path: Seq<char>,
    pub sha256: Seq<char>,
    pub size_bytes: u64,
}

impl View for ArtifactSpec {
    type V = ArtifactSpecView;

    open spec fn view(&self) -> ArtifactSpecView {
        ArtifactSpecView {
            name: self.name@,
            path: self.path@,
            sha256: self.sha256@,
            size_bytes: self.size_bytes,
        }
    }
}

/// How the artifact was built.
#[derive(Debug, PartialEq, Eq)]
pub struct BuildSpec {
    pub language: String,
    pub target: String,
    pub profile: BuildProfile,
    pub fingerprint: String,
    pub toolchain: Option<String>,
    pub toolchain_version: Option<String>,
    pub application_interface: Option<String>,
    pub adapter: Option<String>,
    pub adapter_digest: Option<String>,
}

/// The model of a `BuildSpec`.
pub struct BuildSpecView {
    pub language: Seq<char>,
    pub target: Seq<char>,
    pub profile: BuildProfile,
    pub fingerprint: Seq<char>,
    pub toolchain: Option<Seq<char>>,
    pub toolchain_version: Option<Seq<char>>,
    pub application_interface: Option<Seq<char>>,
    pub adapter: Option<Seq<char>>,
    pub adapter_digest: Option<Seq<char>>,
}

impl View for BuildSpec {
    type V = BuildSpecView;

    open spec fn view(&self) -> BuildSpecView {
        BuildSpecView {
            language: self.language@,
            target: self.target@,
            profile: self.profile,
            fingerprint: self.fingerprint@,
            toolchain: text::option_view(self.toolchain),
            toolchain_version: text::option_view(self.toolchain_version),
            application_interface: text::option_view(self.application_interface),
            adapter: text::option_view(self.adapter),
            adapter_digest: text::option_view(self.adapter_digest),
        }
    }
}

/// What the artifact expects of its runtime.
#[derive(Debug, PartialEq, Eq)]
pub struct RuntimeSpec {
    pub abi: RuntimeAbi,
    pub entrypoint: Entrypoint,
    pub format: ArtifactFormat,
    /// The Component Model world. Older command manifests leave it out.
    pub world: Option<ComponentWorld>,
}

/// The model of a `RuntimeSpec`.
pub struct RuntimeSpecView {
    pub abi: Seq<char>,
    pub entrypoint: Seq<char>,
    /// Whether the entrypoint is a custom one.
    pub custom: bool,
    pub format: ArtifactFormat,
    pub world: Option<ComponentWorld>,
}

impl View for RuntimeSpec {
    type V = RuntimeSpecView;

    open spec fn view(&self) -> RuntimeSpecView {
        RuntimeSpecView {
            abi: self.abi@,
            entrypoint: self.entrypoint@,
            custom: self.entrypoint is Custom,
            format: self.format,
            world: self.world,
        }
    }
}

/// The limits that an execution has unless it is given others.
#[derive(Debug, Clone, Copy, PartialEq, Eq)]
pub struct ExecutionDefaults {
    pub timeout_ms: Option<u64>,
    pub memory_bytes: Option<u64>,
}

impl Default for ExecutionDefaults {
    fn default() -> (r: Self)
        ensures
            r == (ExecutionDefaults { timeout_ms: None, memory_bytes: None }),
    {
        ExecutionDefaults { timeout_ms: None, memory_bytes: None }
    }
}

/// The manifest of an artifact.
#[derive(Debug, PartialEq, Eq)]
pub struct ArtifactManifest {
    pub schema_version: u32,
    pub artifact: ArtifactSpec,
    pub build: BuildSpec,
    pub runtime: RuntimeSpec,
    pub execution: ExecutionDefaults,
    pub capabilities: Vec<Capability>,
}

/// The model of an `ArtifactManifest`.
pub struct ManifestView {
    pub schema_version: u32,
    pub artifact: ArtifactSpecView,
    pub build: BuildSpecView,
    pub runtime: RuntimeSpecView,
    pub execution: ExecutionDefaults,
    pub capabilities: Seq<Seq<char>>,
}

/// The names of capabilities.
pub open spec fn capability_names(capabilities: Seq<Capability>) -> Seq<Seq<char>> {
    capabilities.map_values(|c: Capability| c@)
}

impl View for ArtifactManifest {
    type V = ManifestView;

    open spec fn view(&self) -> ManifestView {
        ManifestView {
            schema_version: self.schema_version,
            artifact: self.artifact@,
            build: self.build@,
            runtime: self.runtime@,
            execution: self.execution,
            capabilities: capability_names(self.capabilities@),
        }
    }
}

/// A manifest whose entrypoint is the one that its name stands for.
pub open spec fn with_named_entrypoint(m: ManifestView) -> ManifestView {
    ManifestView {
        runtime: RuntimeSpecView {
            custom: !is_standard_entrypoint(m.runtime.entrypoint),
            ..m.runtime
        },
        ..m
    }
}

impl Clone for ArtifactManifest {
    fn clone(&self) -> (r: Self)
        ensures
            r@ == self@,
    {
        let mut capabilities: Vec<Capability> = Vec::new();
        let mut i: usize = 0;
        while i < self.capabilities.len()
            invariant
                i <= self.capabilities@.len(),
                capability_names(capabilities@) == capability_names(self.capabilities@).take(i as int),
            decreases self.capabilities@.len() - i,
        {
            let ghost before = capability_names(capabilities@);
            let capability = self.capabilities[i].clone();
            capabilities.push(capability);
            assert(capability_names(capabilities@) =~= before.push(capability@));
            assert(capability_names(self.capabilities@).take(i + 1) =~= capability_names(
                self.capabilities@,
            ).take(i as int).push(capability@));
            i = i + 1;
        }
        assert(capability_names(self.capabilities@).take(i as int) =~= capability_names(
            self.capabilities@,
        ));
        ArtifactManifest {
            schema_version: self.schema_version,
            artifact: ArtifactSpec {
                name: self.artifact.name.clone(),
                path: self.artifact.path.clone(),
                sha256: self.artifact.sha256.clone(),
                size_bytes: self.artifact.size_bytes,
            },
            build: BuildSpec {
                language: self.build.language.clone(),
                target: self.build.target.clone(),
                profile: self.build.profile,
                fingerprint: self.build.fingerprint.clone(),
                toolchain: clone_text(&self.build.toolchain),
                toolchain_version: clone_text(&self.build.toolchain_version),
                application_interface: clone_text(&self.build.application_interface),
                adapter: clone_text(&self.build.adapter),
                adapter_digest: clone_text(&self.build.adapter_digest),
            },
            runtime: RuntimeSpec {
                abi: self.runtime.abi.clone(),
                entrypoint: self.runtime.entrypoint.clone(),
                format: self.runtime.format,
                world: self.runtime.world,
            },
            execution: self.execution,
            capabilities,
        }
    }
}

} // verus!

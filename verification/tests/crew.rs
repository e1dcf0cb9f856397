use pit_crew::adapter::{AdapterHost, PrepareStep};
use pit_crew::artifact::{
    ArtifactFormat, ArtifactManifest, ArtifactSpec, BuildProfile, BuildSpec, Capability,
    ComponentWorld, Entrypoint, ExecutionDefaults, RuntimeAbi, RuntimeSpec,
};
use pit_crew::builder::LanguageBuilder;
use pit_crew::crew::PitCrew;
use pit_crew::error::{ErrorKind, PitError};
use pit_crew::fingerprint::SourceFile;
use pit_crew::javascript_fetch::JavaScriptFetchAdapter;
use pit_crew::language::{ApplicationInterface, Language};
use pit_crew::project::{DetectionCandidate, ProjectInspection};
use pit_crew::python_asgi::PythonAsgiAdapter;
use pit_crew::request::{BuildOutput, BuildRequest, Detection, ToolchainInfo};
use pit_crew::selection::{choose_candidate, AdapterDirectory};
use pit_crew::session::{BuildAction, BuildOutcome, BuildReply};
use pit_crew::standard_adapter::StandardAdapter;
use pit_crew::validation::{sha256_file, StoredArtifact};
use pit_crew::walk::{DirectoryEntry, DirectoryListing, EntryKind, Walk, WalkPolicy};
use std::collections::BTreeMap;

const MODULE: [u8; 8] = [0, 97, 115, 109, 1, 0, 0, 0];
const COMPONENT: [u8; 8] = [0, 97, 115, 109, 13, 0, 1, 0];

/// Files by their absolute paths.
struct Disk {
    files: BTreeMap<String, Vec<u8>>,
}

impl Disk {
    fn new() -> Self {
        Disk { files: BTreeMap::new() }
    }

    fn put(&mut self, path: &str, contents: &[u8]) {
        self.files.insert(path.to_string(), contents.to_vec());
    }

    fn listing(&self, directory: &str) -> DirectoryListing {
        let prefix = format!("{directory}/");
        let mut seen = BTreeMap::new();
        for path in self.files.keys() {
            if let Some(rest) = path.strip_prefix(&prefix) {
                match rest.split_once('/') {
                    Some((name, _)) => seen.insert(name.to_string(), EntryKind::Directory),
                    None => seen.insert(rest.to_string(), EntryKind::File),
                };
            }
        }
        let mut entries = Vec::new();
        for (name, kind) in seen {
            entries.push(DirectoryEntry { name, kind });
        }
        DirectoryListing::new(entries)
    }

    fn inspect(&self, root: &str) -> ProjectInspection {
        let mut walk = Walk::new(WalkPolicy::Project);
        while let Some(relative) = walk.next() {
            let directory =
                if relative.is_empty() { root.to_string() } else { format!("{root}/{relative}") };
            walk.listed(&self.listing(&directory));
        }
        let mut sources = Vec::new();
        for (path, contents) in &self.files {
            if let (Some(relative), Ok(text)) =
                (path.strip_prefix(&format!("{root}/")), String::from_utf8(contents.clone()))
            {
                sources.push((relative.to_string(), text));
            }
        }
        ProjectInspection::discover(root, walk, sources, Vec::new())
    }

    fn stored(&self, pit_root: String, path: String) -> StoredArtifact {
        let contents = self.files.get(&path).cloned();
        StoredArtifact {
            pit_root: Some(pit_root),
            path: contents.as_ref().map(|_| path.clone()),
            contents,
        }
    }
}

fn host() -> AdapterHost {
    AdapterHost {
        wit_template: "/wit-http".to_string(),
        template_exists: true,
        project_has_wit: false,
    }
}

fn toolchain() -> ToolchainInfo {
    ToolchainInfo {
        name: "test".into(),
        version: "1".into(),
        compiler: None,
        componentizer: None,
        target: "wasm32-wasip1".into(),
    }
}

/// A builder that takes every project.
struct FakeBuilder {
    language: Language,
    works: bool,
}

impl LanguageBuilder for FakeBuilder {
    fn language(&self) -> Language {
        self.language
    }

    fn detect(&self, _listing: &DirectoryListing) -> Detection {
        Detection::Yes
    }
}

impl FakeBuilder {
    fn build(&self, request: &BuildRequest, fingerprint: &str, disk: &mut Disk) -> BuildOutput {
        let path = format!("{}/.pit/build/test.wasm", request.project_dir);
        disk.put(&path, &MODULE);
        let manifest = ArtifactManifest {
            schema_version: 1,
            artifact: ArtifactSpec {
                name: "test".into(),
                path: "build/test.wasm".into(),
                sha256: sha256_file(&path, Some(&MODULE)).unwrap(),
                size_bytes: 8,
            },
            build: BuildSpec {
                language: "test".into(),
                target: "wasm32-wasip1".into(),
                profile: BuildProfile::Release,
                fingerprint: fingerprint.into(),
                toolchain: None,
                toolchain_version: None,
                application_interface: None,
                adapter: None,
                adapter_digest: None,
            },
            runtime: RuntimeSpec {
                abi: RuntimeAbi::wasi_preview1(),
                entrypoint: Entrypoint::wasi_preview1(),
                format: ArtifactFormat::CoreModule,
                world: None,
            },
            execution: ExecutionDefaults::default(),
            capabilities: vec![Capability::stdio()],
        };
        BuildOutput { manifest, artifact_path: path, toolchain: toolchain() }
    }
}

fn fails() -> BuildReply {
    BuildReply::Failed(PitError::fixed(ErrorKind::Host, "not here"))
}

/// Does what a build asks for, and counts the builds.
fn run(
    crew: &PitCrew<FakeBuilder, StandardAdapter>,
    request: BuildRequest,
    disk: &mut Disk,
    builds: &mut usize,
) -> Result<BuildOutcome, PitError> {
    let mut session = crew.build_with_status(request, 7);
    while let Some(action) = session.next() {
        let reply = match action {
            BuildAction::Resolve(path) => BuildReply::Path(Some(path)),
            BuildAction::IsDirectory(_) => BuildReply::Answer(true),
            BuildAction::Read(path) => BuildReply::Contents(disk.files.get(&path).cloned()),
            BuildAction::Discover(path) => BuildReply::Project {
                listing: disk.listing(&path),
                project: disk.inspect(&path),
                host: host(),
            },
            BuildAction::OpenAdapter(path) => {
                let path = path.replace("/./", "/");
                match disk.files.get(&format!("{path}/adapter.toml")) {
                    Some(contents) => BuildReply::Adapter(Some(AdapterDirectory {
                        canonical: Some(path),
                        contents: Some(String::from_utf8(contents.clone()).unwrap()),
                    })),
                    None => BuildReply::Adapter(None),
                }
            }
            BuildAction::Prepare(plan) => {
                let mut files = Vec::new();
                for step in plan.steps {
                    if let PrepareStep::WriteFile { path, contents } = step {
                        let relative =
                            path.strip_prefix(&format!("{}/", plan.root)).unwrap().to_string();
                        files.push(SourceFile { path: relative, contents: contents.into_bytes() });
                    }
                }
                BuildReply::Prepared(files)
            }
            BuildAction::Fingerprint { builder, .. } => {
                if builder.works {
                    BuildReply::Fingerprint("a".repeat(64))
                } else {
                    fails()
                }
            }
            BuildAction::Build { builder, request, fingerprint } => {
                *builds += 1;
                BuildReply::Built(builder.build(&request, &fingerprint, disk))
            }
            BuildAction::Inspect { pit_root, path } => BuildReply::Stored(disk.stored(pit_root, path)),
            BuildAction::Write { manifest, path } => {
                let write = manifest.write_atomic(&path, 7, 0)?;
                assert_eq!(write.target, path);
                disk.put(&path, write.contents.as_bytes());
                BuildReply::Done
            }
            BuildAction::CreateDirectory(_) => BuildReply::Done,
            BuildAction::Copy { from, to } => {
                let contents = disk.files[&from].clone();
                disk.put(&to, &contents);
                BuildReply::Done
            }
            BuildAction::Rename { from, to } => {
                let contents = disk.files.remove(&from).unwrap();
                disk.put(&to, &contents);
                BuildReply::Done
            }
        };
        session = session.replied(reply)?;
    }
    Ok(session.finish().unwrap())
}

fn rust_crew() -> PitCrew<FakeBuilder, StandardAdapter> {
    PitCrew::with_adapter(FakeBuilder { language: Language::Rust, works: true })
}

#[test]
fn cached_build_reuses_verified_artifact() {
    let root = "/work/pit-crew-cache";
    let mut disk = Disk::new();
    let mut builds = 0;
    let crew = rust_crew();
    let mut request = BuildRequest::new(root);
    request.abi = RuntimeAbi::wasi_preview1();
    assert!(!run(&crew, request.clone(), &mut disk, &mut builds).unwrap().reused);
    assert!(run(&crew, request, &mut disk, &mut builds).unwrap().reused);
    assert_eq!(builds, 1);
    disk.put(&format!("{root}/.pit/build/test.wasm"), b"corrupt");
    assert!(!run(&crew, BuildRequest::new(root), &mut disk, &mut builds).unwrap().reused);
    assert_eq!(builds, 2);
}

#[test]
fn corrupt_artifacts_are_built_anew() {
    let mut disk = Disk::new();
    let mut builds = 0;
    let crew = rust_crew();
    let mut request = BuildRequest::new("/work/app");
    request.abi = RuntimeAbi::wasi_preview1();
    assert!(!run(&crew, request.clone(), &mut disk, &mut builds).unwrap().reused);
    disk.put("/work/app/.pit/build/test.wasm", b"corrupt");
    assert!(!run(&crew, request.clone(), &mut disk, &mut builds).unwrap().reused);
    assert!(run(&crew, request, &mut disk, &mut builds).unwrap().reused);
    assert_eq!(builds, 2);
}

#[test]
fn forced_builds_and_changed_requests_are_built() {
    let mut disk = Disk::new();
    let mut builds = 0;
    let crew = rust_crew();
    let mut request = BuildRequest::new("/work/app");
    request.abi = RuntimeAbi::wasi_preview1();
    assert!(!run(&crew, request.clone(), &mut disk, &mut builds).unwrap().reused);
    request.force = true;
    assert!(!run(&crew, request.clone(), &mut disk, &mut builds).unwrap().reused);
    request.force = false;
    request.entrypoint = Some("main:other".to_string());
    assert!(!run(&crew, request, &mut disk, &mut builds).unwrap().reused);
    assert_eq!(builds, 3);
}

#[test]
fn reused_manifests_take_the_new_execution_defaults() {
    let mut disk = Disk::new();
    let mut builds = 0;
    let crew = rust_crew();
    let mut request = BuildRequest::new("/work/app");
    request.abi = RuntimeAbi::wasi_preview1();
    assert!(!run(&crew, request.clone(), &mut disk, &mut builds).unwrap().reused);
    request.execution_defaults = ExecutionDefaults { timeout_ms: Some(5), memory_bytes: None };
    let outcome = run(&crew, request, &mut disk, &mut builds).unwrap();
    assert!(outcome.reused);
    assert_eq!(outcome.artifact.manifest.execution.timeout_ms, Some(5));
    assert_eq!(outcome.artifact.artifact_path, "/work/app/.pit/build/test.wasm");
    assert_eq!(outcome.artifact.toolchain.name, "unknown");
    let written = disk.files["/work/app/.pit/artifact.json"].clone();
    let manifest =
        ArtifactManifest::load("/work/app/.pit/artifact.json", Some(&written)).unwrap();
    assert_eq!(manifest, outcome.artifact.manifest);
}

#[test]
fn ambiguous_detection_requires_explicit_language() {
    let root = "/work/pit-crew-detect";
    let mut disk = Disk::new();
    let mut builds = 0;
    let crew: PitCrew<FakeBuilder, StandardAdapter> = PitCrew::new(vec![
        FakeBuilder { language: Language::Rust, works: false },
        FakeBuilder { language: Language::Go, works: false },
    ]);
    let error = match run(&crew, BuildRequest::new(root), &mut disk, &mut builds) {
        Ok(_) => panic!("ambiguous detection unexpectedly built"),
        Err(error) => error.message().to_string(),
    };
    assert!(error.contains("multiple PitCrew languages detected"));

    let mut request = BuildRequest::new(root);
    request.language = Some(Language::Go);
    let error = match run(&crew, request, &mut disk, &mut builds) {
        Ok(_) => panic!("detection test unexpectedly built"),
        Err(error) => error.message().to_string(),
    };
    assert!(error.contains("build fingerprint failed"));
    let mut request = BuildRequest::new(root);
    request.language = Some(Language::Java);
    let error = run(&crew, request, &mut disk, &mut builds).err().unwrap();
    assert_eq!(error.message(), "no PitCrew builder detected for /work/pit-crew-detect");
    assert_eq!(error.kind, ErrorKind::Selection);
}

#[test]
fn unknown_framework_is_detected_by_interface_shape_only() {
    let root = "/work/pit-crew-asgi";
    let mut disk = Disk::new();
    disk.put(&format!("{root}/pyproject.toml"), b"[project]\nname='mystery'\n");
    disk.put(
        &format!("{root}/main.py"),
        b"async def app(scope, receive, send):\n    pass\n",
    );
    let crew: PitCrew<FakeBuilder, StandardAdapter> = PitCrew::new(Vec::new())
        .with_application_adapter(StandardAdapter::PythonAsgi(PythonAsgiAdapter::new()));
    let candidates = crew.inspect(&disk.inspect(root));
    assert_eq!(candidates.len(), 1);
    assert_eq!(candidates[0].application_interface.as_ref().unwrap().as_str(), "asgi");
    assert!(candidates[0].framework_hint.is_none());
}

#[test]
fn frameworks_are_hints() {
    let mut disk = Disk::new();
    disk.put("/p/requirements.txt", b"FastAPI==0.1\n");
    disk.put("/p/app.py", b"app = make()\n");
    let crew: PitCrew<FakeBuilder, StandardAdapter> = PitCrew::with_default_adapters(Vec::new());
    let candidates = crew.inspect(&disk.inspect("/p"));
    assert_eq!(candidates.len(), 1);
    assert_eq!(candidates[0].framework_hint.as_deref(), Some("FastAPI"));
    assert_eq!(candidates[0].entrypoint.as_deref(), Some("app:app"));
}

fn candidate(interface: &str, entrypoint: &str) -> DetectionCandidate {
    DetectionCandidate {
        language: Language::Python,
        application_interface: Some(ApplicationInterface::new(interface).unwrap()),
        entrypoint: Some(entrypoint.into()),
        framework_hint: None,
        confidence: 90,
        evidence: Vec::new(),
    }
}

#[test]
fn ambiguous_interfaces_require_an_explicit_selection() {
    let root = "/work/pit-crew-interfaces";
    let candidates = vec![candidate("asgi", "main:app"), candidate("wsgi", "main:application")];
    let error = choose_candidate(&BuildRequest::new(root), &candidates).unwrap_err();
    assert!(error.message().contains("multiple application interfaces"));
    let mut request = BuildRequest::new(root);
    request.application_interface = Some(ApplicationInterface::new("wsgi").unwrap());
    assert_eq!(
        choose_candidate(&request, &candidates).unwrap().unwrap().entrypoint.as_deref(),
        Some("main:application")
    );
    let twice = vec![candidate("wsgi", "a:b"), candidate("wsgi", "c:d")];
    assert_eq!(
        choose_candidate(&request, &twice).unwrap_err().message(),
        "multiple projects/interfaces match 'wsgi'; specify --adapter and --entry"
    );
    assert!(choose_candidate(&request, &vec![candidate("asgi", "a:b")]).unwrap().is_none());
}

#[test]
fn languages_are_listed_in_order_and_once() {
    let mut disk = Disk::new();
    disk.put("/p/pyproject.toml", b"");
    disk.put("/p/main.py", b"app = 1\n");
    let crew: PitCrew<FakeBuilder, StandardAdapter> = PitCrew::with_default_adapters(vec![
        FakeBuilder { language: Language::TypeScript, works: true },
        FakeBuilder { language: Language::Python, works: true },
        FakeBuilder { language: Language::C, works: true },
    ]);
    assert_eq!(crew.application_adapters().len(), 4);
    assert_eq!(
        crew.detect_languages(&disk.listing("/p"), &disk.inspect("/p")),
        vec![Language::C, Language::Python, Language::TypeScript]
    );
}

fn python_project() -> Disk {
    let mut disk = Disk::new();
    disk.put("/p/pyproject.toml", b"[project]\nname='x'\n");
    disk.put("/p/main.py", b"async def app(scope, receive, send):\n    pass\n");
    disk
}

#[test]
fn detected_applications_are_bridged() {
    let mut disk = python_project();
    let mut builds = 0;
    let crew: PitCrew<FakeBuilder, StandardAdapter> = PitCrew::with_default_adapters(vec![
        FakeBuilder { language: Language::Python, works: true },
    ]);
    let mut request = BuildRequest::new("/p");
    request.abi = RuntimeAbi::wasi_preview1();
    let outcome = run(&crew, request.clone(), &mut disk, &mut builds).unwrap();
    let build = &outcome.artifact.manifest.build;
    assert_eq!(build.adapter.as_deref(), Some("python/asgi"));
    assert_eq!(build.application_interface.as_deref(), Some("asgi"));
    assert!(build.adapter_digest.as_ref().unwrap().starts_with("sha256:"));
    // The bridge is the same again, and so is the build.
    assert!(run(&crew, request, &mut disk, &mut builds).unwrap().reused);
    assert_eq!(builds, 1);
}

#[test]
fn entrypoints_that_are_asked_for_go_first() {
    let disk = python_project();
    let crew: PitCrew<FakeBuilder, StandardAdapter> = PitCrew::with_default_adapters(vec![
        FakeBuilder { language: Language::Python, works: true },
    ]);
    let mut request = BuildRequest::new("/p");
    request.entrypoint = Some("server:application".to_string());
    let mut session = crew.build_with_status(request, 7);
    let plan = loop {
        let reply = match session.next().unwrap() {
            BuildAction::Resolve(path) => BuildReply::Path(Some(path)),
            BuildAction::IsDirectory(_) => BuildReply::Answer(true),
            BuildAction::Discover(path) => BuildReply::Project {
                listing: disk.listing(&path),
                project: disk.inspect(&path),
                host: host(),
            },
            BuildAction::Prepare(plan) => break plan,
            _ => panic!("the bridge was not prepared"),
        };
        session = session.replied(reply).unwrap();
    };
    let bridge = plan.steps.iter().find_map(|step| match step {
        PrepareStep::WriteFile { contents, .. } => Some(contents.as_str()),
        _ => None,
    });
    assert!(bridge.unwrap().contains("importlib.import_module(\"server\"), \"application\")"));
}

#[test]
fn compatibility_is_reported_without_building() {
    let disk = python_project();
    let crew: PitCrew<FakeBuilder, StandardAdapter> = PitCrew::with_default_adapters(Vec::new());
    let request = BuildRequest::new("/p");
    let report = crew.compatibility(&disk.inspect("/p"), &request, &None).unwrap().unwrap();
    assert!(!report.blocks_build());
    assert_eq!(report.messages[0], "ASGI is bridged to wasi:http/proxy");
    let plain = Disk::new();
    assert!(crew.compatibility(&plain.inspect("/p"), &request, &None).unwrap().is_none());
}

#[test]
fn adapters_are_selected_by_name_directory_or_interface() {
    let mut disk = python_project();
    let mut builds = 0;
    let crew: PitCrew<FakeBuilder, StandardAdapter> = PitCrew::with_default_adapters(vec![
        FakeBuilder { language: Language::Python, works: true },
    ]);
    let mut request = BuildRequest::new("/p");
    request.adapter = Some("nowhere".to_string());
    let error = run(&crew, request, &mut disk, &mut builds).err().unwrap();
    assert_eq!(error.message(), "unknown application adapter 'nowhere'");

    let mut request = BuildRequest::new("/p");
    request.application_interface = Some(ApplicationInterface::new("wsgi").unwrap());
    let error = run(&crew, request, &mut disk, &mut builds).err().unwrap();
    assert_eq!(
        error.message(),
        "select --language when selecting an application adapter"
    );

    let mut request = BuildRequest::new("/p");
    request.language = Some(Language::Python);
    request.application_interface = Some(ApplicationInterface::new("wsgi").unwrap());
    let error = run(&crew, request, &mut disk, &mut builds).err().unwrap();
    assert_eq!(error.message(), "no adapter is registered for interface 'wsgi'");

    disk.put(
        "/p/pit-adapters/banana-http/adapter.toml",
        b"schema = 1\n[adapter]\nid = \"local/banana-http\"\nlanguage = \"python\"\n\
          interface = \"banana-http\"\ntarget = \"wasi:http/proxy\"\nversion = \"1.0.0\"\n\
          [generator]\nkind = \"python-template\"\nentrypoint = \"app\"\nfiles = [\"app.py\"]\n",
    );
    let mut request = BuildRequest::new("/p");
    request.adapter = Some("./pit-adapters/banana-http".to_string());
    request.application_interface = Some(ApplicationInterface::new("banana-http").unwrap());
    let outcome = run(&crew, request, &mut disk, &mut builds).unwrap();
    assert_eq!(
        outcome.artifact.manifest.build.adapter.as_deref(),
        Some("local/banana-http")
    );
}

#[test]
fn adapters_that_tie_are_refused() {
    let mut disk = Disk::new();
    disk.put("/p/package.json", b"{}");
    let crew: PitCrew<FakeBuilder, StandardAdapter> = PitCrew::with_adapter(FakeBuilder {
        language: Language::JavaScript,
        works: true,
    })
    .with_application_adapter(StandardAdapter::JavaScriptFetch(JavaScriptFetchAdapter::new(
        Language::JavaScript,
    )))
    .with_application_adapter(StandardAdapter::JavaScriptFetch(JavaScriptFetchAdapter::new(
        Language::JavaScript,
    )));
    let mut request = BuildRequest::new("/p");
    request.language = Some(Language::JavaScript);
    request.application_interface = Some(ApplicationInterface::new("fetch").unwrap());
    let error = run(&crew, request, &mut disk, &mut 0).err().unwrap();
    assert_eq!(error.message(), "multiple adapters match the detected application interface");
}

#[test]
fn provided_components_are_wrapped_and_reused() {
    let mut disk = Disk::new();
    disk.put("/dist/app.wasm", &COMPONENT);
    let mut builds = 0;
    let crew: PitCrew<FakeBuilder, StandardAdapter> = PitCrew::new(Vec::new());
    let mut request = BuildRequest::new("/work/my-app");
    request.raw_artifact = Some("/dist/app.wasm".to_string());
    request.world = Some(ComponentWorld::WasiHttpProxy);
    let outcome = run(&crew, request.clone(), &mut disk, &mut builds).unwrap();
    assert!(!outcome.reused);
    let manifest = &outcome.artifact.manifest;
    assert_eq!(manifest.artifact.name, "my_app");
    assert_eq!(manifest.artifact.path, "build/my_app.wasm");
    assert_eq!(manifest.build.language, "raw");
    assert_eq!(manifest.build.target, "wasm32-wasip2");
    assert_eq!(manifest.build.application_interface.as_deref(), Some("wasi-http"));
    assert_eq!(outcome.artifact.artifact_path, "/work/my-app/.pit/build/my_app.wasm");
    assert!(!disk.files.contains_key("/work/my-app/.pit/build/.my_app.7.tmp"));
    assert!(run(&crew, request, &mut disk, &mut builds).unwrap().reused);
    assert_eq!(builds, 0);
}

#[test]
fn provided_artifacts_must_fit_the_request() {
    let mut disk = Disk::new();
    disk.put("/dist/app.wasm", &MODULE);
    disk.put("/dist/bad.wasm", b"not wasm");
    disk.put("/dist/component.wasm", &COMPONENT);
    let crew: PitCrew<FakeBuilder, StandardAdapter> = PitCrew::new(Vec::new());
    let mut request = BuildRequest::new("/work/app");
    request.raw_artifact = Some("/dist/app.wasm".to_string());
    let error = run(&crew, request.clone(), &mut disk, &mut 0).err().unwrap();
    assert_eq!(
        error.message(),
        "raw core-module requires wasi-preview1; select the matching --abi"
    );
    request.raw_artifact = Some("/dist/component.wasm".to_string());
    request.world = Some(ComponentWorld::WasiCliCommand);
    let error = run(&crew, request.clone(), &mut disk, &mut 0).err().unwrap();
    assert_eq!(
        error.message(),
        "raw artifact format does not implement requested world WasiCliCommand"
    );
    assert_eq!(error.kind, ErrorKind::Request);
    request.raw_artifact = Some("/dist/bad.wasm".to_string());
    let error = run(&crew, request, &mut disk, &mut 0).err().unwrap();
    assert_eq!(error.message(), "invalid WebAssembly artifact /dist/bad.wasm");
}

#[test]
fn project_directories_must_exist() {
    let crew = rust_crew();
    let session = crew.build_with_status(BuildRequest::new("gone"), 1);
    let error = session.replied(BuildReply::Path(None)).err().unwrap();
    assert_eq!(error.message(), "failed to access project directory gone");
    let session = crew.build_with_status(BuildRequest::new("file"), 1);
    let session = session.replied(BuildReply::Path(Some("/file".to_string()))).unwrap();
    let error = session.replied(BuildReply::Answer(false)).err().unwrap();
    assert_eq!(error.message(), "project directory is not a directory: /file");
    let session = crew.build_with_status(BuildRequest::new("x"), 1);
    let error = session.replied(BuildReply::Done).err().unwrap();
    assert_eq!(error.message(), "unexpected reply to a build step");
}

#[test]
fn builders_must_keep_the_fingerprint() {
    let crew = rust_crew();
    let mut disk = Disk::new();
    let mut session = crew.build_with_status(BuildRequest::new("/work/app"), 1);
    loop {
        let reply = match session.next().unwrap() {
            BuildAction::Resolve(path) => BuildReply::Path(Some(path)),
            BuildAction::IsDirectory(_) => BuildReply::Answer(true),
            BuildAction::Read(_) => BuildReply::Contents(None),
            BuildAction::Discover(path) => BuildReply::Project {
                listing: disk.listing(&path),
                project: disk.inspect(&path),
                host: host(),
            },
            BuildAction::Fingerprint { .. } => BuildReply::Fingerprint("x".to_string()),
            BuildAction::Build { builder, request, .. } => {
                let output = builder.build(&request, &"d".repeat(64), &mut disk);
                let error = session.replied(BuildReply::Built(output)).err().unwrap();
                assert_eq!(
                    error.message(),
                    "builder returned an artifact with a mismatched build fingerprint"
                );
                assert_eq!(error.kind, ErrorKind::Integrity);
                return;
            }
            _ => panic!("unexpected action"),
        };
        session = session.replied(reply).unwrap();
    }
}

use pit_crew::artifact::{
    default_artifact_format, format_name, ArtifactFormat, ArtifactManifest, Capability,
    ComponentWorld, RuntimeAbi,
};
use pit_crew::builder::LanguageBuilder;
use pit_crew::cache::{load_cached_manifest, manifest_fits, raw_artifact_fingerprint};
use pit_crew::crew::PitCrew;
use pit_crew::error::ErrorKind;
use pit_crew::experimental_builder::ExperimentalBuilder;
use pit_crew::fingerprint::{sort_files, SourceFile};
use pit_crew::js_builder::JsBuilder;
use pit_crew::language::{ApplicationInterface, Language};
use pit_crew::project::{
    findings_block, interface_eq, CompatibilityCertainty, CompatibilityFinding,
    CompatibilitySeverity,
};
use pit_crew::raw_artifact::{build_raw_artifact, check_raw_artifact};
use pit_crew::request::{BuildOutput, BuildRequest};
use pit_crew::rust_builder::RustBuilder;
use pit_crew::standard_adapter::StandardAdapter;
use pit_crew::tooling::{merge_output, ToolEnvironment, ToolOutput};
use pit_crew::validation::{validate_relative_path, StoredArtifact};
use pit_crew::walk::{DirectoryEntry, DirectoryListing, EntryKind};
use pit_crew::wasm::{check_payloads, detect_artifact_format, format_of_payloads, PayloadKind};

const COMPONENT: [u8; 8] = [0, 97, 115, 109, 13, 0, 1, 0];

fn environment() -> ToolEnvironment {
    ToolEnvironment {
        componentize_go: None,
        go: None,
        node: None,
        tsc: None,
        componentize_js_script: None,
        componentize_py: None,
        python: None,
        wit_bindgen: None,
        wasm_tools: None,
        dotnet: None,
        javac: None,
        wasi_sdk: None,
        http_wit: None,
    }
}

fn output(success: bool, stdout: &str, stderr: &str) -> Option<ToolOutput> {
    Some(ToolOutput {
        success,
        status: "exit status: 1".to_string(),
        stdout: stdout.as_bytes().to_vec(),
        stderr: stderr.as_bytes().to_vec(),
    })
}

fn wrapped(request: &BuildRequest) -> BuildOutput {
    let fingerprint = raw_artifact_fingerprint(request, ArtifactFormat::Component, &COMPONENT);
    build_raw_artifact(request, ArtifactFormat::Component, &fingerprint, &COMPONENT)
}

#[test]
fn the_first_version_header_gives_the_format() {
    let module = [Some(PayloadKind::Module), Some(PayloadKind::Component)];
    assert_eq!(format_of_payloads("a.wasm", &module), Ok(ArtifactFormat::CoreModule));
    let component = [Some(PayloadKind::Other), Some(PayloadKind::Component), None];
    assert_eq!(format_of_payloads("a.wasm", &component), Ok(ArtifactFormat::Component));
    assert_eq!(
        format_of_payloads("a.wasm", &[Some(PayloadKind::Other)]).unwrap_err().message(),
        "WASM artifact has no WebAssembly version header: a.wasm"
    );
    assert_eq!(
        format_of_payloads("a.wasm", &[None]).unwrap_err().message(),
        "invalid WebAssembly artifact a.wasm"
    );
    assert!(check_payloads("a.wasm", &module).is_ok());
    assert_eq!(
        check_payloads("a.wasm", &component).unwrap_err().message(),
        "invalid WebAssembly artifact a.wasm"
    );
    assert_eq!(
        detect_artifact_format("a.wasm", Some(&COMPONENT)),
        Ok(ArtifactFormat::Component)
    );
    assert_eq!(
        detect_artifact_format("a.wasm", None).unwrap_err().message(),
        "failed to read a.wasm"
    );
}

#[test]
fn formats_and_identifiers_have_names() {
    assert_eq!(format_name(ArtifactFormat::CoreModule), "core-module");
    assert_eq!(format_name(ArtifactFormat::Component), "component");
    assert_eq!(default_artifact_format(), ArtifactFormat::CoreModule);
    assert!(RuntimeAbi::wasi_preview2().is_supported());
    assert!(!RuntimeAbi("wasi-future".into()).is_supported());
    assert!(Capability::stdio().is_supported());
    assert!(!Capability("sockets".into()).is_supported());
}

#[test]
fn artifact_paths_stay_below_the_pit_directory() {
    assert!(validate_relative_path("build/a.wasm").is_ok());
    for path in ["/a.wasm", "build/../../a.wasm", ""] {
        assert_eq!(validate_relative_path(path).unwrap_err().kind, ErrorKind::Path);
    }
    let manifest = wrapped(&BuildRequest::new("/app")).manifest;
    let stored = |pit_root: Option<&str>, path: Option<&str>| StoredArtifact {
        pit_root: pit_root.map(str::to_string),
        path: path.map(str::to_string),
        contents: Some(COMPONENT.to_vec()),
    };
    let place = "/app/.pit/build/app.wasm";
    assert_eq!(
        manifest.resolve_artifact_path("/app", &stored(Some("/app/.pit"), Some(place))),
        Ok(place.to_string())
    );
    assert_eq!(
        manifest.resolve_artifact_path("/app", &stored(None, None)).unwrap_err().message(),
        "failed to access /app/.pit"
    );
    let missing = manifest.resolve_artifact_path("/app", &stored(Some("/app/.pit"), None));
    assert_eq!(
        missing.unwrap_err().message(),
        format!("artifact does not exist: /app/.pit/{}", manifest.artifact.path)
    );
    let outside = manifest.resolve_artifact_path("/app", &stored(Some("/app/.pit"), Some("/x.wasm")));
    assert_eq!(outside.unwrap_err().message(), "artifact path escapes the .pit directory");
}

#[test]
fn cached_manifests_must_fit_the_request() {
    let request = BuildRequest::new("/app");
    let manifest = wrapped(&request).manifest;
    let fingerprint = manifest.build.fingerprint.clone();
    assert!(manifest_fits(&manifest, &request, &fingerprint));
    assert!(!manifest_fits(&manifest, &request, "other"));
    let mut other = BuildRequest::new("/app");
    other.adapter = Some("python.asgi".into());
    assert!(!manifest_fits(&manifest, &other, &fingerprint));
    let text = manifest.to_json().unwrap();
    let found = load_cached_manifest(&request, &fingerprint, Some(text.as_bytes()));
    assert_eq!(found, Some(manifest));
    assert_eq!(load_cached_manifest(&request, "other", Some(text.as_bytes())), None);
    assert_eq!(load_cached_manifest(&request, &fingerprint, Some(b"{}")), None);
    assert_eq!(load_cached_manifest(&request, &fingerprint, None), None);
}

#[test]
fn provided_artifacts_are_wrapped() {
    let mut request = BuildRequest::new("/work/my app");
    let built = wrapped(&request);
    assert_eq!(built.toolchain.name, "provided");
    assert_eq!(built.toolchain.version, "raw-artifact");
    assert_eq!(built.manifest.artifact.size_bytes, 8);
    assert_eq!(built.manifest.runtime.world, Some(ComponentWorld::WasiHttpProxy));
    assert!(built.manifest.validate().is_ok());
    let text = built.manifest.to_json().unwrap();
    assert_eq!(
        ArtifactManifest::load("artifact.json", Some(text.as_bytes())),
        Ok(built.manifest)
    );
    assert!(check_raw_artifact(&request, ArtifactFormat::Component).is_ok());
    assert_eq!(
        check_raw_artifact(&request, ArtifactFormat::CoreModule).unwrap_err().message(),
        "raw core-module requires wasi-preview1; select the matching --abi"
    );
    request.world = Some(ComponentWorld::WasiCliCommand);
    assert_eq!(
        check_raw_artifact(&request, ArtifactFormat::Component).unwrap_err().kind,
        ErrorKind::Request
    );
}

#[test]
fn provided_artifacts_are_told_apart() {
    let mut request = BuildRequest::new("/app");
    let one = raw_artifact_fingerprint(&request, ArtifactFormat::Component, &COMPONENT);
    assert_eq!(one, raw_artifact_fingerprint(&request, ArtifactFormat::Component, &COMPONENT));
    assert_ne!(one, raw_artifact_fingerprint(&request, ArtifactFormat::CoreModule, &COMPONENT));
    assert_ne!(one, raw_artifact_fingerprint(&request, ArtifactFormat::Component, &[0]));
    request.execution_defaults.timeout_ms = Some(1);
    assert_ne!(one, raw_artifact_fingerprint(&request, ArtifactFormat::Component, &COMPONENT));
}

#[test]
fn builders_are_chosen() {
    let crew: PitCrew<JsBuilder, StandardAdapter> =
        PitCrew::new(vec![JsBuilder::javascript(), JsBuilder::typescript()]);
    let listing = |names: &[&str]| {
        let entry = |name: &&str| DirectoryEntry { name: name.to_string(), kind: EntryKind::File };
        DirectoryListing::new(names.iter().map(entry).collect())
    };
    let javascript = listing(&["package.json", "main.js"]);
    let chosen = crew.choose_builder("/app", &javascript, None);
    assert_eq!(chosen.map(|builder| builder.language()).unwrap(), Language::JavaScript);
    let unfit = crew.choose_builder("/app", &javascript, Some(Language::TypeScript));
    assert_eq!(unfit.err().unwrap().message(), "no PitCrew builder detected for /app");
    let typescript = listing(&["package.json", "main.js", "main.ts"]);
    let chosen = crew.choose_builder("/app", &typescript, None);
    assert_eq!(chosen.map(|builder| builder.language()).unwrap(), Language::TypeScript);
    let twice: PitCrew<JsBuilder, StandardAdapter> =
        PitCrew::new(vec![JsBuilder::javascript(), JsBuilder::javascript()]);
    assert_eq!(
        twice.choose_builder("/app", &javascript, None).err().unwrap().message(),
        "multiple PitCrew languages detected for /app; select --language"
    );
}

#[test]
fn componentizer_scripts_need_not_tell_their_version() {
    let builder = JsBuilder::javascript();
    let mut env = environment();
    let said = builder.componentizer_version(&env, &output(true, "0.19.3\n", ""));
    assert_eq!(said, Ok("0.19.3".to_string()));
    assert!(builder.componentizer_version(&env, &output(false, "", "no")).is_err());
    env.componentize_js_script = Some("/tools/componentize.mjs".into());
    let said = builder.componentizer_version(&env, &output(false, "", "no"));
    assert_eq!(said, Ok("ComponentizeJS 0.22.0".to_string()));
}

#[test]
fn experimental_compilers_are_probed() {
    let builder = ExperimentalBuilder::java();
    let command = builder.probe_command(&environment());
    assert_eq!(command.program, "javac");
    assert_eq!(command.args, vec!["-version".to_string()]);
    let said = builder.probe_compiler(&output(true, "", "javac 21.0.1\nmore\n"));
    assert_eq!(said, Ok("javac 21.0.1".to_string()));
    assert_eq!(
        builder.probe_compiler(&output(false, "", " broken \n")).unwrap_err().message(),
        "java compiler probe failed: broken"
    );
    assert_eq!(
        builder.probe_compiler(&None).unwrap_err().message(),
        "java compiler is not installed"
    );
    assert!(!builder.blocker().is_empty());
}

#[test]
fn outputs_are_joined_and_metadata_is_asked_for() {
    assert_eq!(merge_output(" a \n", "\n b"), "a\nb");
    assert_eq!(merge_output("", " b "), "b");
    assert_eq!(merge_output(" a ", " \n"), "a");
    let command = RustBuilder::metadata_command("/app");
    assert_eq!(command.program, "cargo");
    assert_eq!(command.directory, Some("/app".to_string()));
    assert_eq!(command.args[0], "metadata");
}

#[test]
fn files_are_sorted_by_their_parts() {
    let file = |path: &str| SourceFile { path: path.to_string(), contents: Vec::new() };
    let sorted = sort_files(vec![file("b.py"), file("a.py"), file("a/c.py"), file("a-b/c.py")]);
    let paths: Vec<&str> = sorted.iter().map(|file| file.path.as_str()).collect();
    assert_eq!(paths, vec!["a/c.py", "a-b/c.py", "a.py", "b.py"]);
}

#[test]
fn adaptations_and_interfaces_are_compared() {
    let mut request = BuildRequest::new("/app");
    assert_eq!(
        request.adaptation_fingerprint_material(),
        "interface=;entry=;adapter=;adapter_digest="
    );
    request.application_interface = Some(ApplicationInterface::new("asgi").unwrap());
    request.entrypoint = Some("app.main:app".into());
    assert_eq!(
        request.adaptation_fingerprint_material(),
        "interface=asgi;entry=app.main:app;adapter=;adapter_digest="
    );
    assert!(interface_eq(&None, &None));
    assert!(!interface_eq(&None, &request.application_interface));
    let mut finding = CompatibilityFinding {
        category: "native-extension".into(),
        severity: CompatibilitySeverity::Error,
        certainty: CompatibilityCertainty::Confirmed,
        package: None,
        dependency_path: Vec::new(),
        evidence: Vec::new(),
        reason: "reason".into(),
        recommendation: "recommendation".into(),
        blocks_build: false,
    };
    assert!(!findings_block(&Vec::new()));
    finding.blocks_build = true;
    assert!(findings_block(&vec![finding]));
}

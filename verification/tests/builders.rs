use pit_crew::artifact::{BuildProfile, ComponentWorld, RuntimeAbi};
use pit_crew::builder::{BuildFacts, BuildStep, LanguageBuilder, StepReply};
use pit_crew::error::ErrorKind;
use pit_crew::experimental_builder::ExperimentalBuilder;
use pit_crew::fingerprint::SourceFile;
use pit_crew::go_builder::GoBuilder;
use pit_crew::js_builder::JsBuilder;
use pit_crew::language::Language;
use pit_crew::native_builder::NativeBuilder;
use pit_crew::python_builder::PythonBuilder;
use pit_crew::request::{BuildRequest, Detection};
use pit_crew::rust_builder::{
    CargoMetadata, CargoTarget, RustBuilder, RustReply, RustStep, TARGET,
};
use pit_crew::tooling::{compiler_output, output_text, ToolEnvironment, ToolOutput};
use pit_crew::walk::{DirectoryEntry, DirectoryListing, EntryKind};
use pit_crew::wasm::validate_wasm;

const MODULE: [u8; 8] = [0, 97, 115, 109, 1, 0, 0, 0];
const COMPONENT: [u8; 8] = [0, 97, 115, 109, 13, 0, 1, 0];

fn listing(files: &[&str], directories: &[&str]) -> DirectoryListing {
    let mut entries = Vec::new();
    for name in files {
        entries.push(DirectoryEntry { name: (*name).to_string(), kind: EntryKind::File });
    }
    for name in directories {
        entries.push(DirectoryEntry { name: (*name).to_string(), kind: EntryKind::Directory });
    }
    DirectoryListing::new(entries)
}

fn printed(stdout: &str) -> Option<ToolOutput> {
    Some(ToolOutput {
        success: true,
        status: "exit status: 0".to_string(),
        stdout: stdout.as_bytes().to_vec(),
        stderr: Vec::new(),
    })
}

fn failed(stderr: &str) -> Option<ToolOutput> {
    Some(ToolOutput {
        success: false,
        status: "exit status: 101".to_string(),
        stdout: Vec::new(),
        stderr: stderr.as_bytes().to_vec(),
    })
}

fn environment() -> ToolEnvironment {
    ToolEnvironment {
        componentize_go: None,
        go: None,
        node: None,
        tsc: None,
        componentize_js_script: None,
        componentize_py: None,
        python: None,
        wit_bindgen: None,
        wasm_tools: None,
        dotnet: None,
        javac: None,
        wasi_sdk: None,
        http_wit: None,
    }
}

fn facts(files: &[&str], directories: &[&str]) -> BuildFacts {
    BuildFacts {
        listing: listing(files, directories),
        request_wit_exists: false,
        http_wit_exists: false,
        compiler_exists: true,
    }
}

#[test]
fn language_markers_are_conservative() {
    assert_eq!(ExperimentalBuilder::csharp().language(), Language::CSharp);
    assert_eq!(ExperimentalBuilder::java().language(), Language::Java);
    assert_eq!(
        ExperimentalBuilder::csharp().detect(&listing(&["Cargo.toml"], &["src"])),
        Detection::No
    );
}

#[test]
fn experimental_markers_are_found() {
    assert_eq!(
        ExperimentalBuilder::csharp().detect(&listing(&["App.csproj"], &[])),
        Detection::Yes
    );
    assert_eq!(ExperimentalBuilder::java().detect(&listing(&["pom.xml"], &[])), Detection::Yes);
}

#[test]
fn experimental_builders_are_blocked() {
    let error = ExperimentalBuilder::java().build().unwrap_err();
    assert!(error.message().starts_with("java builder is blocked: "));
    let error = ExperimentalBuilder::java().probe_toolchain(&None).unwrap_err();
    assert!(error.message().contains("java compiler is not installed"));
}

#[test]
fn detects_go_modules() {
    assert_eq!(GoBuilder::new().detect(&listing(&[], &[])), Detection::No);
    assert_eq!(GoBuilder::new().language(), Language::Go);
}

#[test]
fn go_modules_have_a_go_mod_file() {
    assert_eq!(GoBuilder::new().detect(&listing(&["go.mod"], &[])), Detection::Yes);
    assert_eq!(GoBuilder::new().detect(&listing(&[], &["go.mod"])), Detection::No);
}

#[test]
fn detects_js_and_ts() {
    assert_eq!(JsBuilder::javascript().language(), Language::JavaScript);
    assert_eq!(JsBuilder::typescript().language(), Language::TypeScript);
    assert_eq!(JsBuilder::javascript().detect(&listing(&[], &[])), Detection::No);
}

#[test]
fn a_project_is_javascript_or_typescript() {
    let typescript = listing(&["package.json", "main.ts", "tsconfig.json"], &[]);
    assert_eq!(JsBuilder::typescript().detect(&typescript), Detection::Yes);
    assert_eq!(JsBuilder::javascript().detect(&typescript), Detection::No);
    let javascript = listing(&["package.json", "main.js"], &[]);
    assert_eq!(JsBuilder::javascript().detect(&javascript), Detection::Yes);
    assert_eq!(JsBuilder::typescript().detect(&javascript), Detection::No);
}

#[test]
fn detects_c_and_cpp_sources() {
    assert_eq!(NativeBuilder::c().language(), Language::C);
    assert_eq!(NativeBuilder::cpp().language(), Language::Cpp);
    assert_eq!(NativeBuilder::c().detect(&listing(&[], &[])), Detection::No);
}

#[test]
fn detects_python() {
    assert_eq!(PythonBuilder::new().language(), Language::Python);
    assert_eq!(PythonBuilder::new().detect(&listing(&[], &[])), Detection::No);
}

#[test]
fn detects_only_cargo_projects() {
    assert!(RustBuilder::new().detect(&listing(&["Cargo.toml"], &["src"])) == Detection::Yes);
    assert!(RustBuilder::new().detect(&listing(&[], &[])) == Detection::No);
    assert_eq!(TARGET, "wasm32-wasip1");
}

#[test]
fn rejects_invalid_wasm() {
    assert!(validate_wasm("pit-invalid.wasm", Some(b"not wasm")).is_err());
}

#[test]
fn wasm_is_read_to_its_end() {
    assert!(validate_wasm("a.wasm", Some(&MODULE)).is_ok());
    assert!(validate_wasm("a.wasm", Some(&COMPONENT)).is_ok());
    let mut damaged = MODULE.to_vec();
    damaged.extend_from_slice(&[1, 200]);
    let error = validate_wasm("a.wasm", Some(&damaged)).unwrap_err();
    assert_eq!(error.message(), "invalid WebAssembly artifact a.wasm");
    let error = validate_wasm("a.wasm", Some(&[])).unwrap_err();
    assert_eq!(error.message(), "WASM artifact is empty: a.wasm");
    assert!(validate_wasm("a.wasm", None).is_err());
}

#[test]
fn compiler_output_joins_both_streams() {
    assert_eq!(compiler_output(b" out \n", b""), "out");
    assert_eq!(compiler_output(b"", b"\nerr"), "err");
    assert_eq!(compiler_output(b"out", b"err"), "out\nerr");
    assert_eq!(compiler_output(b" ", b""), "(compiler produced no output)");
    assert_eq!(output_text(b"", b""), "");
    assert_eq!(output_text(&[b'a', 0xff, b'b'], b""), "a\u{fffd}b");
}

fn target(name: &str, kind: &str) -> CargoTarget {
    CargoTarget { name: name.to_string(), kind: vec![kind.to_string()] }
}

#[test]
fn rust_programs_are_selected() {
    let one = CargoMetadata {
        targets: vec![target("tool", "bin"), target("tool", "lib")],
        target_directory: "/target".to_string(),
    };
    assert_eq!(RustBuilder::select_binary(&one, &None).unwrap(), "tool");
    assert_eq!(
        RustBuilder::select_binary(&one, &Some("other".to_string())).unwrap_err().message(),
        "binary target 'other' was not found; available binaries: tool"
    );
    let two = CargoMetadata {
        targets: vec![target("a", "bin"), target("b", "bin")],
        target_directory: "/target".to_string(),
    };
    assert_eq!(
        RustBuilder::select_binary(&two, &None).unwrap_err().message(),
        "Rust project has multiple binary targets (a, b); use pit build --bin <name>"
    );
    assert_eq!(RustBuilder::select_binary(&two, &Some("b".to_string())).unwrap(), "b");
    let none = CargoMetadata { targets: vec![target("c", "lib")], target_directory: String::new() };
    assert_eq!(
        RustBuilder::select_binary(&none, &None).unwrap_err().message(),
        "Rust project has no runnable binary target"
    );
}

#[test]
fn rust_target_is_looked_for_line_by_line() {
    assert!(RustBuilder::names_target("x86_64-unknown-linux-gnu\n wasm32-wasip1 \n"));
    assert!(!RustBuilder::names_target("wasm32-wasip1-threads\n"));
    assert!(RustBuilder::target_available(&printed("wasm32-wasip1\n")).unwrap());
    assert!(!RustBuilder::target_available(&failed("no rustup")).unwrap());
    assert!(RustBuilder::target_available(&None).is_err());
}

#[test]
fn cargo_metadata_keeps_what_it_knows() {
    let deep = format!("{}{}", "[".repeat(5000), "]".repeat(5000));
    let document = format!(
        "{{\"version\":1e999,\"packages\":[{{\"metadata\":{deep},\"targets\":[{{\"name\":\"a\",\
         \"kind\":[\"bin\"],\"doc\":\"\\ud800\"}},[\"b\",[\"lib\"]]]}},{{\"targets\":[]}}],\
         \"target_directory\":\"/t\"}}"
    );
    let metadata = RustBuilder::metadata(&printed(&document)).unwrap();
    assert_eq!(metadata.target_directory, "/t");
    assert_eq!(metadata.targets.len(), 2);
    assert_eq!(metadata.targets[0].name, "a");
    assert_eq!(metadata.targets[0].kind, vec!["bin".to_string()]);
    assert_eq!(metadata.targets[1].name, "b");
    for twice in [
        "{\"packages\":[],\"packages\":[],\"target_directory\":\"/t\"}",
        "{\"packages\":[{\"targets\":[],\"targets\":[]}],\"target_directory\":\"/t\"}",
        "{\"packages\":[{\"targets\":[{\"name\":\"a\",\"kind\":[],\"name\":\"a\"}]}],\
         \"target_directory\":\"/t\"}",
        "{\"packages\":{},\"target_directory\":\"/t\"}",
    ] {
        assert_eq!(
            RustBuilder::metadata(&printed(twice)).unwrap_err().message(),
            "cargo metadata returned invalid JSON"
        );
    }
}

#[test]
fn cargo_metadata_is_read() {
    let document = r#"{"packages":[{"name":"x","targets":[{"name":"rust-hello","kind":["bin"]}]}],
        "target_directory":"/work/target","version":1}"#;
    let metadata = RustBuilder::metadata(&printed(document)).unwrap();
    assert_eq!(metadata.target_directory, "/work/target");
    assert_eq!(metadata.targets.len(), 1);
    assert_eq!(metadata.targets[0].name, "rust-hello");
    assert_eq!(
        RustBuilder::metadata(&printed("{}")).unwrap_err().message(),
        "cargo metadata returned invalid JSON"
    );
    assert_eq!(
        RustBuilder::metadata(&failed("boom")).unwrap_err().message(),
        "cargo metadata failed:\nboom"
    );
}

#[test]
fn rust_build_goes_from_cargo_to_artifact() {
    let document = r#"{"packages":[{"targets":[{"name":"rust-hello","kind":["bin"]}]}],
        "target_directory":"/work/target"}"#;
    let mut build = RustBuilder::new().build(&BuildRequest::new("/work/rust-hello"));
    let mut steps = 0;
    while let Some(step) = build.next() {
        steps += 1;
        let reply = match step {
            RustStep::Run(command) => {
                if command.args[0] == "metadata" {
                    assert_eq!(command.program, "cargo");
                    RustReply::Command(printed(document))
                } else if command.program == "rustup" {
                    RustReply::Command(printed("wasm32-wasip1\n"))
                } else {
                    assert_eq!(command.args, ["build", "--target", "wasm32-wasip1", "--release"]);
                    assert_eq!(command.directory.as_deref(), Some("/work/rust-hello"));
                    RustReply::Command(printed(""))
                }
            }
            RustStep::IsFile(path) => {
                assert_eq!(path, "/work/target/wasm32-wasip1/release/rust-hello.wasm");
                RustReply::IsFile(true)
            }
            RustStep::CreateDirectory(path) => {
                assert_eq!(path, "/work/rust-hello/.pit/build");
                RustReply::Done(true)
            }
            RustStep::Copy { from, to } => {
                assert_eq!(from, "/work/target/wasm32-wasip1/release/rust-hello.wasm");
                assert_eq!(to, "/work/rust-hello/.pit/build/rust-hello.wasm");
                RustReply::Done(true)
            }
            RustStep::Read(path) => {
                assert_eq!(path, "/work/rust-hello/.pit/build/rust-hello.wasm");
                RustReply::Contents(Some(MODULE.to_vec()))
            }
        };
        build = build.replied(reply).unwrap();
    }
    assert_eq!(steps, 8);
    let artifact = build.finish().unwrap();
    assert_eq!(artifact.name, "rust-hello");
    assert_eq!(artifact.language, Language::Rust);
    assert_eq!(artifact.target, "wasm32-wasip1");
    assert_eq!(artifact.size_bytes, 8);
    assert_eq!(
        artifact.sha256,
        "93a44bbb96c751218e4c00d479e4c14358122a389acca16205b1e4d0dc5f9476"
    );
}

#[test]
fn rust_build_failures_are_told() {
    let build = RustBuilder::new().build(&BuildRequest::new("/work/app"));
    let document = r#"{"packages":[{"targets":[{"name":"app","kind":["bin"]}]}],
        "target_directory":"/t"}"#;
    let build = build.replied(RustReply::Command(printed(document))).unwrap();
    let error = build.replied(RustReply::Command(printed("other\n"))).unwrap_err();
    assert!(error.message().contains("rustup target add wasm32-wasip1"));
    let build = RustBuilder::new().build(&BuildRequest::new("/work/app"));
    let build = build.replied(RustReply::Command(printed(document))).unwrap();
    let build = build.replied(RustReply::Command(printed("wasm32-wasip1\n"))).unwrap();
    let error = build.replied(RustReply::Command(failed("boom"))).unwrap_err();
    assert_eq!(error.message(), "cargo build failed with exit status: 101:\nboom");
    assert_eq!(error.kind, ErrorKind::Tool);
}

#[test]
fn fingerprints_depend_on_sources_and_not_on_their_order() {
    let builder = JsBuilder::javascript();
    let request = BuildRequest::new("/work/app");
    let toolchain = builder.toolchain_for(&request, "v22", "componentize-js 0.18");
    let file = |path: &str, contents: &str| SourceFile {
        path: path.to_string(),
        contents: contents.as_bytes().to_vec(),
    };
    let one = builder.fingerprint(&request, &toolchain, vec![file("a.js", "1"), file("b.js", "2")]);
    let two = builder.fingerprint(&request, &toolchain, vec![file("b.js", "2"), file("a.js", "1")]);
    let three =
        builder.fingerprint(&request, &toolchain, vec![file("a.js", "1"), file("b.js", "3")]);
    assert_eq!(one.len(), 64);
    assert_eq!(one, two);
    assert_ne!(one, three);
}

#[test]
fn portable_fingerprints_depend_on_sources() {
    let request = BuildRequest::new("/work/app");
    let file = |path: &str, contents: &str| SourceFile {
        path: path.to_string(),
        contents: contents.as_bytes().to_vec(),
    };
    let go = GoBuilder::new();
    let toolchain = go.toolchain_for(&request, "componentize-go 1", "go1.25");
    let one = go.fingerprint(&request, &toolchain, vec![file("a\\b.go", "1"), file("c.go", "2")]);
    let two = go.fingerprint(&request, &toolchain, vec![file("c.go", "2"), file("a\\b.go", "1")]);
    let three = go.fingerprint(&request, &toolchain, vec![file("a\\b.go", "3"), file("c.go", "2")]);
    assert_eq!(one, two);
    assert_ne!(one, three);
    let native = NativeBuilder::c();
    let toolchain = native.toolchain_for(&request, "clang", "wit-bindgen", "wasm-tools");
    let one = native.fingerprint(&request, &toolchain, vec![file("/p/main.c", "1")]);
    let two = native.fingerprint(&request, &toolchain, vec![file("/p/main.c", "2")]);
    assert_ne!(one, two);
}

#[test]
fn go_requests_are_checked_before_the_toolchain() {
    let mut request = BuildRequest::new("/work/app");
    assert!(GoBuilder::new().check(&request).is_ok());
    request.abi = RuntimeAbi::wasi_preview1();
    assert_eq!(
        GoBuilder::new().check(&request).unwrap_err().message(),
        "Go Component builder currently targets wasi-preview2; use the Rust builder for P1"
    );
}

#[test]
fn python_build_collects_a_component() {
    let builder = PythonBuilder::new();
    let request = BuildRequest::new("/work/my-app");
    let env = environment();
    let facts = facts(&["app.py", "pyproject.toml"], &["wit"]);
    let toolchain = builder.toolchain_for(&request, "componentize-py 0.25.0\n", "Python 3.13\n");
    assert_eq!(toolchain.version, "componentize-py 0.25.0");
    let fingerprint = "c".repeat(64);
    let mut run = builder.build(&request, &env, &facts, toolchain, &fingerprint).unwrap();
    while let Some(step) = run.next() {
        let reply = match step {
            BuildStep::CreateDirectory(_) | BuildStep::Rename { .. } => StepReply::Done,
            BuildStep::Run(command) => {
                assert_eq!(command.program, "componentize-py");
                StepReply::Command(printed(""))
            }
            BuildStep::Collect { .. } | BuildStep::Adopt { .. } => {
                StepReply::Contents(Some(COMPONENT.to_vec()))
            }
        };
        run = run.replied(reply).unwrap();
    }
    let output = run.finish().unwrap();
    assert_eq!(output.manifest.artifact.name, "my_app");
    assert_eq!(output.manifest.artifact.path, "build/my_app.wasm");
    assert_eq!(output.manifest.build.fingerprint, fingerprint);
    assert_eq!(output.manifest.build.profile, BuildProfile::Release);
    assert_eq!(output.manifest.runtime.world, Some(ComponentWorld::WasiHttpProxy));
    assert!(output.manifest.validate().is_ok());
}

#[test]
fn core_modules_are_no_components() {
    let builder = PythonBuilder::new();
    let request = BuildRequest::new("/work/app");
    let facts = facts(&["app.py", "pyproject.toml"], &["wit"]);
    let toolchain = builder.toolchain_for(&request, "1", "2");
    let mut run =
        builder.build(&request, &environment(), &facts, toolchain, &"c".repeat(64)).unwrap();
    let mut refused = false;
    while let Some(step) = run.next() {
        let reply = match step {
            BuildStep::CreateDirectory(_) | BuildStep::Rename { .. } => StepReply::Done,
            BuildStep::Run(_) => StepReply::Command(printed("")),
            _ => StepReply::Contents(Some(MODULE.to_vec())),
        };
        match run.replied(reply) {
            Ok(next) => run = next,
            Err(error) => {
                assert_eq!(error.kind, ErrorKind::Tool);
                refused = true;
                break;
            }
        }
    }
    assert!(refused);
}

#[test]
fn builders_take_preview2_only() {
    let mut request = BuildRequest::new("/work/app");
    request.abi = RuntimeAbi::wasi_preview1();
    let error = PythonBuilder::new().check(&request, &facts(&["app.py"], &["wit"])).unwrap_err();
    assert_eq!(error.message(), "Python builder targets wasi-preview2 Components only");
    assert_eq!(error.kind, ErrorKind::Request);
}

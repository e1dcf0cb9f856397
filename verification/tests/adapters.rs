use pit_crew::adapter::{
    adapter_digest_bytes, missing_asset, safe_join, split_entrypoint, AdapterHost,
    ApplicationAdapter, PrepareStep,
};
use pit_crew::artifact::{ArtifactFormat, ExecutionDefaults};
use pit_crew::bridges::{asgi_bridge, asgi_bridge_of, fetch_bridge};
use pit_crew::cache::{adaptation_fingerprint, raw_artifact_fingerprint};
use pit_crew::external_adapter::ExternalAdapter;
use pit_crew::fingerprint::{hash_build, SourceFile};
use pit_crew::go_net_http::GoNetHttpAdapter;
use pit_crew::javascript_fetch::JavaScriptFetchAdapter;
use pit_crew::language::{AdapterId, ApplicationInterface, Language};
use pit_crew::project::{
    CompatibilityCertainty, CompatibilityFinding, CompatibilityReport, CompatibilitySeverity,
    CompatibilityStatus, ProjectInspection, ProjectModel,
};
use pit_crew::python_asgi::PythonAsgiAdapter;
use pit_crew::request::BuildRequest;
use pit_crew::selection::{default_interface, format_compatibility_error};

fn project(files: &[(&str, &str)]) -> ProjectInspection {
    let mut names = Vec::new();
    let mut sources = Vec::new();
    for (name, text) in files {
        names.push((*name).to_string());
        sources.push(((*name).to_string(), (*text).to_string()));
    }
    names.sort();
    ProjectInspection { root: "/p".to_string(), files: names, sources, packages: Vec::new() }
}

fn host() -> AdapterHost {
    AdapterHost {
        wit_template: "/wit-http".to_string(),
        template_exists: true,
        project_has_wit: false,
    }
}

fn model(language: Language, interface: &str, entrypoint: &str) -> ProjectModel {
    ProjectModel {
        language,
        application_interface: Some(ApplicationInterface::new(interface).unwrap()),
        entrypoint: Some(entrypoint.to_string()),
        framework_hint: None,
        confidence: 100,
        evidence: Vec::new(),
    }
}

fn source(path: &str, contents: &str) -> SourceFile {
    SourceFile { path: path.to_string(), contents: contents.as_bytes().to_vec() }
}

#[test]
fn entrypoints_are_read() {
    assert_eq!(
        split_entrypoint("pkg/main:app").unwrap(),
        ("pkg/main".to_string(), "app".to_string())
    );
    assert_eq!(
        split_entrypoint("main").unwrap_err().message(),
        "entrypoint must use module:attribute syntax"
    );
    for bad in [":app", "main:", ".main:app", "a//b:app", "a/../b:app", "a\\b:app", "main:a/b"] {
        assert_eq!(
            split_entrypoint(bad).unwrap_err().message(),
            "entrypoint contains an invalid module or attribute"
        );
    }
    assert_eq!(split_entrypoint("a:b:c").unwrap().1, "b:c");
}

#[test]
fn assets_stay_below_their_adapter() {
    assert_eq!(safe_join("/a", "x/y.py").unwrap(), "/a/x/y.py");
    assert_eq!(
        safe_join("/a", "../y.py").unwrap_err().message(),
        "adapter asset path escapes its adapter root: ../y.py"
    );
    assert!(safe_join("/a", "/etc/passwd").is_err());
    assert_eq!(
        missing_asset("/a/x").message(),
        "external adapter asset does not exist: /a/x"
    );
}

#[test]
fn identities_are_hashed() {
    let id = AdapterId::new("a/b").unwrap();
    let interface = ApplicationInterface::new("asgi").unwrap();
    let files = vec![source("app.py", "x")];
    assert_eq!(
        adapter_digest_bytes("v1", &id, &interface, "main:app", &files),
        "sha256:e6a7860d03668531cefda4ed33363e37f4d1d31a9aab0ca1553dddc64c048c04"
    );
    assert_ne!(
        adapter_digest_bytes("v1", &id, &interface, "main:app", &vec![source("app.py", "y")]),
        adapter_digest_bytes("v1", &id, &interface, "main:app", &files)
    );
    assert_ne!(
        adapter_digest_bytes("v2", &id, &interface, "main:app", &files),
        adapter_digest_bytes("v1", &id, &interface, "main:app", &files)
    );
    let mut request = BuildRequest::new("/p");
    request.application_interface = Some(ApplicationInterface::new("asgi").unwrap());
    request.entrypoint = Some("main:app".to_string());
    request.adapter = Some("python/asgi".to_string());
    assert_eq!(
        adaptation_fingerprint(&"a".repeat(64), &request),
        "6f36357d0af6d0217a9a7c140bc7b86d155fa40cf9904bddcf05b74ec05a9a2a"
    );
    let mut request = BuildRequest::new("/p");
    request.application_interface = Some(ApplicationInterface::new("wasi-http").unwrap());
    request.execution_defaults = ExecutionDefaults { timeout_ms: Some(5), memory_bytes: None };
    assert_eq!(
        raw_artifact_fingerprint(
            &request,
            ArtifactFormat::Component,
            &[0, 97, 115, 109, 13, 0, 1, 0]
        ),
        "954b851a78d508079b9d80b91929b3054a4f5db78a7964f9eb05ad670a9a806a"
    );
    assert_eq!(
        hash_build(&vec!["one", "two"], vec![source("b", "B"), source("a", "A")]),
        "d7a9bedef50553427ae9642cb98b4a274c6025b0a2e7ab3d2021cbdf709a68f9"
    );
}

#[test]
fn fetch_handlers_are_bridged() {
    let adapter = JavaScriptFetchAdapter::new(Language::JavaScript);
    let found = project(&[("package.json", "{}"), ("main.js", "export async function fetch() {}")]);
    let candidate = adapter.detect(&found).unwrap();
    assert_eq!(candidate.entrypoint.as_deref(), Some("main:fetch"));
    assert_eq!(candidate.confidence, 70);
    assert!(adapter.detect(&project(&[("package.json", "{}"), ("main.js", "x")])).is_none());
    let model = model(Language::JavaScript, "fetch", "main:fetch");
    let plan = adapter.prepare(&found, &model, &host()).unwrap();
    assert_eq!(plan.root, "/p/.pit/generated/adapters/javascript-fetch");
    let mut written = String::new();
    for step in &plan.steps {
        if let PrepareStep::WriteFile { path, contents } = step {
            assert_eq!(path, "/p/.pit/generated/adapters/javascript-fetch/main.js");
            written = contents.clone();
        }
    }
    assert_eq!(written, fetch_bridge("fetch", "../../../../main.js"));
    assert!(written.contains("../../../../main.js"));
    let output =
        adapter.complete(&found, &model, &host(), vec![source("main.js", &written)]).unwrap();
    assert_eq!(output.workspace.entrypoint, "main.js");
    assert_eq!(
        output.workspace.generated_files,
        vec!["/p/.pit/generated/adapters/javascript-fetch/main.js".to_string()]
    );
}

#[test]
fn fetch_requirements_are_told() {
    let adapter = JavaScriptFetchAdapter::new(Language::TypeScript);
    assert_eq!(
        adapter.validate(&model(Language::JavaScript, "fetch", "a:b")).unwrap_err().message(),
        "adapter 'javascript/fetch' requires typescript"
    );
    assert_eq!(
        adapter.validate(&model(Language::TypeScript, "asgi", "a:b")).unwrap_err().message(),
        "adapter 'javascript/fetch' requires the Fetch interface"
    );
    assert_eq!(
        adapter.validate(&model(Language::TypeScript, "fetch", "")).unwrap_err().message(),
        "Fetch adapter requires an entrypoint such as main:fetch"
    );
}

#[test]
fn go_handlers_must_be_importable() {
    let adapter = GoNetHttpAdapter::new();
    let found = project(&[("go.mod", "module x"), ("app/app.go", "var Handler http.Handler")]);
    assert_eq!(adapter.detect(&found).unwrap().entrypoint.as_deref(), Some("app:Handler"));
    assert!(adapter.detect(&project(&[("app.go", "http.Handler")])).is_none());
    let error = adapter.validate(&model(Language::Go, "net-http", "main:Handler")).unwrap_err();
    assert!(error.message().contains("import cycle"));
    assert!(adapter.validate(&model(Language::Go, "net-http", "app:Handler")).is_ok());
    let plan =
        adapter.prepare(&found, &model(Language::Go, "net-http", "app:Handler"), &host()).unwrap();
    assert_eq!(plan.root, "/p/.pit/generated/adapters/go-net-http");
    let error = adapter
        .prepare(&project(&[]), &model(Language::Go, "net-http", "app:Handler"), &host())
        .unwrap_err();
    assert_eq!(error.message(), "go.mod must exist for the net/http adapter");
}

#[test]
fn asgi_applications_are_bridged() {
    let adapter = PythonAsgiAdapter::new();
    let found = project(&[("setup.py", ""), ("app.py", "app = make()")]);
    let candidate = adapter.detect(&found).unwrap();
    assert_eq!(candidate.entrypoint.as_deref(), Some("app:app"));
    assert_eq!(candidate.evidence.len(), 2);
    let plan =
        adapter.prepare(&found, &model(Language::Python, "asgi", "app:app"), &host()).unwrap();
    let mut copied = false;
    for step in &plan.steps {
        match step {
            PrepareStep::WriteFile { path, contents } => {
                assert_eq!(path, "/p/.pit/generated/adapters/python-asgi/app.py");
                assert_eq!(contents, &asgi_bridge("app", "app"));
            }
            PrepareStep::CopyTree { source, destination } => {
                assert_eq!(source, "/wit-http");
                assert_eq!(destination, "/p/.pit/generated/adapters/python-asgi/wit");
                copied = true;
            }
            _ => {}
        }
    }
    assert!(copied);
}

#[test]
fn bridges_quote_what_they_import() {
    assert_eq!(asgi_bridge("a\"b", "app"), asgi_bridge_of("\"a\\\"b\"", "\"app\""));
    assert!(asgi_bridge("main", "app").contains("\"main\""));
}

const BANANA: &str = "schema = 1\n[adapter]\nid = \"local/banana-http\"\nlanguage = \"python\"\n\
    interface = \"banana-http\"\ntarget = \"wasi:http/proxy\"\nversion = \"1.0.0\"\n\
    [generator]\nkind = \"python-template\"\nentrypoint = \"app\"\nfiles = [\"lib/app.py\"]\n";

#[test]
fn local_adapters_copy_their_assets() {
    let adapter = ExternalAdapter::load("/ad", Some("/real/ad"), Some(BANANA)).unwrap();
    assert_eq!(adapter.id().as_str(), "local/banana-http");
    assert_eq!(adapter.language(), Language::Python);
    assert_eq!(adapter.interface().as_str(), "banana-http");
    let model = model(Language::Python, "banana-http", "main:app");
    let plan = adapter.prepare(&project(&[]), &model, &host()).unwrap();
    let root = "/p/.pit/generated/adapters/external/local_banana-http";
    assert_eq!(plan.root, root);
    assert_eq!(plan.assets, Some(vec![format!("{root}/lib/app.py")]));
    match &plan.steps[1] {
        PrepareStep::CopyAsset { source, directory, destination } => {
            assert_eq!(source, "/real/ad/lib/app.py");
            assert_eq!(directory.as_deref(), Some(format!("{root}/lib").as_str()));
            assert_eq!(destination, &format!("{root}/lib/app.py"));
        }
        _ => panic!("an asset is copied"),
    }
    let one = adapter.complete(&project(&[]), &model, &host(), vec![source("a", "1")]).unwrap();
    let two = adapter.complete(&project(&[]), &model, &host(), vec![source("a", "2")]).unwrap();
    assert_ne!(one.workspace.digest, two.workspace.digest);
}

#[test]
fn local_adapters_are_checked() {
    let load = |text: &str| match ExternalAdapter::load("/ad", Some("/ad"), Some(text)) {
        Ok(_) => "accepted".to_string(),
        Err(error) => error.message().to_string(),
    };
    assert_eq!(load("schema = "), "invalid adapter manifest /ad/adapter.toml");
    assert_eq!(load("schema = 1"), "invalid adapter manifest /ad/adapter.toml");
    assert_eq!(
        load(&BANANA.replace("schema = 1", "schema = 2")),
        "unsupported external adapter schema 2"
    );
    assert_eq!(
        load(&BANANA.replace("wasi:http/proxy", "wasi:cli/command")),
        "external adapter target must be wasi:http/proxy in v0.11"
    );
    assert_eq!(
        load(&BANANA.replace("python-template", "native")),
        "unsupported external adapter generator kind 'native'; expected python-template"
    );
    assert_eq!(
        load(&BANANA.replace("[\"lib/app.py\"]", "[]")),
        "external adapter must list at least one generated file"
    );
    assert!(load(&BANANA.replace("local/banana-http", "Local")).starts_with("invalid adapter id"));
    assert_eq!(
        ExternalAdapter::load("/ad", None, Some(BANANA)).err().unwrap().message(),
        "failed to access external adapter /ad"
    );
    assert_eq!(
        ExternalAdapter::load("/ad", Some("/ad"), None).err().unwrap().message(),
        "failed to read /ad/adapter.toml"
    );
    let climbing = BANANA.replace("lib/app.py", "../app.py");
    let adapter = ExternalAdapter::load("/ad", Some("/ad"), Some(&climbing)).unwrap();
    let plan = adapter
        .prepare(&project(&[]), &model(Language::Python, "banana-http", "main:app"), &host())
        .unwrap();
    assert!(matches!(plan.steps[1], PrepareStep::Refuse(_)));
}

fn finding(package: Option<&str>, path: &[&str], blocks: bool) -> CompatibilityFinding {
    CompatibilityFinding {
        category: "native-extension".to_string(),
        severity: CompatibilitySeverity::Error,
        certainty: CompatibilityCertainty::Confirmed,
        package: package.map(|p| p.to_string()),
        dependency_path: path.iter().map(|p| p.to_string()).collect(),
        evidence: Vec::new(),
        reason: "R".to_string(),
        recommendation: "X".to_string(),
        blocks_build: blocks,
    }
}

#[test]
fn blocking_findings_are_listed() {
    let report = CompatibilityReport {
        status: CompatibilityStatus::Unsupported,
        messages: vec!["no".to_string(), "other".to_string()],
        findings: vec![
            finding(Some("a"), &["b", "a"], true),
            finding(Some("c"), &[], false),
            finding(None, &[], true),
        ],
    };
    assert!(report.blocks_build());
    assert_eq!(
        format_compatibility_error(&report),
        "no\n\n[native-extension] a\nDependency path: b -> a\nReason: R\nRecommendation: X\
         \n\n[native-extension] project\nReason: R\nRecommendation: X"
    );
    let silent = CompatibilityReport {
        status: CompatibilityStatus::Supported,
        messages: Vec::new(),
        findings: Vec::new(),
    };
    assert_eq!(format_compatibility_error(&silent), "application compatibility check failed");
}

#[test]
fn interfaces_follow_the_world() {
    let mut request = BuildRequest::new("/p");
    assert_eq!(default_interface(&request).as_str(), "wasi-cli");
    request.world = Some(pit_crew::artifact::ComponentWorld::WasiHttpProxy);
    assert_eq!(default_interface(&request).as_str(), "wasi-http");
}

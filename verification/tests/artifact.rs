use pit_crew::artifact::{
    ArtifactFormat, ArtifactManifest, ArtifactSpec, BuildProfile, BuildSpec, Capability,
    ComponentWorld, Entrypoint, ExecutionDefaults, RuntimeAbi, RuntimeSpec, SCHEMA_VERSION,
    manifest_path,
};
use pit_crew::error::ErrorKind;
use pit_crew::validation::{sha256_file, StoredArtifact};

fn manifest() -> ArtifactManifest {
    ArtifactManifest {
        schema_version: SCHEMA_VERSION,
        artifact: ArtifactSpec {
            name: "hello".into(),
            path: "build/hello.wasm".into(),
            sha256: "a".repeat(64),
            size_bytes: 1,
        },
        build: BuildSpec {
            language: "rust".into(),
            target: "wasm32-wasip1".into(),
            profile: BuildProfile::Release,
            fingerprint: "b".repeat(64),
            toolchain: None,
            toolchain_version: None,
            application_interface: None,
            adapter: None,
            adapter_digest: None,
        },
        runtime: RuntimeSpec {
            abi: RuntimeAbi::wasi_preview1(),
            entrypoint: Entrypoint::wasi_preview1(),
            format: ArtifactFormat::CoreModule,
            world: None,
        },
        execution: ExecutionDefaults::default(),
        capabilities: vec![Capability::stdio(), Capability::args(), Capability::env()],
    }
}

#[test]
fn rejects_unsupported_schema_and_traversal() {
    let mut value = manifest();
    value.schema_version = 99;
    assert!(value.validate().is_err());
    let mut value = manifest();
    value.artifact.path = "../outside.wasm".into();
    assert!(value.validate().is_err());
}

#[test]
fn rejects_bad_integrity_metadata() {
    let mut value = manifest();
    value.artifact.sha256 = "bad".into();
    assert!(value.validate().is_err());
    let mut value = manifest();
    value.artifact.size_bytes = 0;
    assert!(value.validate().is_err());
}

#[test]
fn unknown_abi_is_readable_but_not_compatible() {
    let mut value = manifest();
    value.runtime.abi = RuntimeAbi("wasi-future".into());
    assert!(value.validate().is_ok());
    assert!(value.validate_runtime_compatibility().is_err());
}

#[test]
fn runtime_contract_rejects_abi_format_mismatch() {
    let mut value = manifest();
    value.runtime.abi = RuntimeAbi::wasi_preview2();
    assert!(value.validate().is_err());
}

#[test]
fn roundtrip_is_deterministic() {
    let original = manifest();
    let json = original.to_json().unwrap();
    let decoded = ArtifactManifest::load("artifact.json", Some(json.as_bytes())).unwrap();
    assert_eq!(original, decoded);
    assert_eq!(json, decoded.to_json().unwrap());
}

#[test]
fn preview2_manifest_roundtrips_with_component_contract() {
    let mut value = manifest();
    value.runtime = RuntimeSpec {
        abi: RuntimeAbi::wasi_preview2(),
        entrypoint: Entrypoint::wasi_preview2(),
        format: ArtifactFormat::Component,
        world: Some(ComponentWorld::WasiCliCommand),
    };
    let json = value.to_json().unwrap();
    let decoded = ArtifactManifest::load("artifact.json", Some(json.as_bytes())).unwrap();
    assert_eq!(decoded, value);
    assert!(decoded.validate_runtime_compatibility().is_ok());
}

fn legacy(runtime: &str) -> String {
    format!(
        "{{\"schema_version\":1,\"artifact\":{{\"name\":\"hello\",\"path\":\"build/hello.wasm\",\
         \"sha256\":\"{}\",\"size_bytes\":1}},\"build\":{{\"language\":\"rust\",\
         \"target\":\"wasm32-wasip1\",\"profile\":\"release\",\"fingerprint\":\"{}\"}},\
         \"runtime\":{runtime},\"execution\":{{}},\"capabilities\":[\"stdio\"]}}",
        "a".repeat(64),
        "b".repeat(64)
    )
}

#[test]
fn legacy_preview1_manifest_defaults_to_core_module_format() {
    let text = legacy("{\"abi\":\"wasi-preview1\",\"entrypoint\":\"_start\"}");
    let decoded = ArtifactManifest::load("artifact.json", Some(text.as_bytes())).unwrap();
    assert_eq!(decoded.runtime.format, ArtifactFormat::CoreModule);
    assert!(decoded.validate_runtime_compatibility().is_ok());
}

#[test]
fn entrypoints_are_read_as_what_they_name() {
    let mut value = manifest();
    let json = value.to_json().unwrap();
    let decoded = ArtifactManifest::load("artifact.json", Some(json.as_bytes())).unwrap();
    assert_eq!(decoded.runtime.entrypoint, Entrypoint::WasiPreview1Start);
    assert_eq!(decoded.clone().runtime.entrypoint, Entrypoint::WasiPreview1Start);
    value.runtime.abi = RuntimeAbi("wasi-future".into());
    value.runtime.entrypoint = Entrypoint::Custom("run".into());
    let json = value.to_json().unwrap();
    let decoded = ArtifactManifest::load("artifact.json", Some(json.as_bytes())).unwrap();
    assert_eq!(decoded.runtime.entrypoint, Entrypoint::Custom("run".into()));
    assert_eq!(decoded, value);
}

#[test]
fn malformed_manifests_are_refused() {
    let error = ArtifactManifest::load("m.json", None).unwrap_err();
    assert_eq!(error.message(), "failed to read artifact manifest m.json");
    let error = ArtifactManifest::load("m.json", Some(b"{")).unwrap_err();
    assert_eq!(error.message(), "malformed artifact manifest m.json");
    assert_eq!(error.kind, ErrorKind::Document);
    let text = legacy("{\"abi\":\"wasi-preview1\"}");
    assert!(ArtifactManifest::load("m.json", Some(text.as_bytes())).is_err());
    let text = legacy("{\"abi\":\"wasi-preview1\",\"entrypoint\":\"other\"}");
    let error = ArtifactManifest::load("m.json", Some(text.as_bytes())).unwrap_err();
    assert_eq!(error.message(), "wasi-preview1 artifacts require entrypoint _start");
}

fn stored(root: &str, path: &str, contents: &[u8]) -> StoredArtifact {
    StoredArtifact {
        pit_root: Some(format!("{root}/.pit")),
        path: Some(path.to_string()),
        contents: Some(contents.to_vec()),
    }
}

#[test]
fn atomic_manifest_roundtrip_verifies_sha256_and_size() {
    let root = "/tmp/pit-artifact-1";
    let artifact_path = format!("{root}/.pit/build/hello.wasm");
    let contents = [0, 97, 115, 109, 1, 0, 0, 0];
    let mut value = manifest();
    value.artifact.path = "build/hello.wasm".into();
    value.artifact.sha256 = sha256_file(&artifact_path, Some(&contents)).unwrap();
    value.artifact.size_bytes = 8;
    let manifest_path = format!("{root}/.pit/artifact.json");
    let write = value.write_atomic(&manifest_path, 42, 3).unwrap();
    assert_eq!(write.directory, format!("{root}/.pit"));
    assert_eq!(write.temporary, format!("{root}/.pit/.artifact.json.42.3.tmp"));
    assert_eq!(write.target, manifest_path);
    let loaded = ArtifactManifest::load(&manifest_path, Some(write.contents.as_bytes())).unwrap();
    assert_eq!(loaded.artifact_location(root), artifact_path);
    let kept = stored(root, &artifact_path, &contents);
    assert_eq!(loaded.verify_artifact(root, &kept).unwrap(), artifact_path);
    let mut p2_claim = loaded.clone();
    p2_claim.runtime = RuntimeSpec {
        abi: RuntimeAbi::wasi_preview2(),
        entrypoint: Entrypoint::wasi_preview2(),
        format: ArtifactFormat::Component,
        world: Some(ComponentWorld::WasiCliCommand),
    };
    assert!(p2_claim.verify_artifact(root, &kept).is_err());
    assert!(loaded.verify_artifact(root, &stored(root, &artifact_path, b"changed")).is_err());
}

#[test]
fn integrity_errors_name_what_differs() {
    let root = "/p";
    let contents = [0, 97, 115, 109, 1, 0, 0, 0];
    let mut value = manifest();
    value.artifact.sha256 = sha256_file("x", Some(&contents)).unwrap();
    value.artifact.size_bytes = 8;
    let place = "/p/.pit/build/hello.wasm";
    let error = value.verify_artifact(root, &stored(root, place, b"short")).unwrap_err();
    assert_eq!(error.message(), "artifact size mismatch: manifest 8, actual 5");
    assert_eq!(error.kind, ErrorKind::Integrity);
    let error = value.verify_artifact(root, &stored(root, place, b"8 bytes!")).unwrap_err();
    assert!(error.message().starts_with("artifact SHA-256 mismatch: manifest 93a44bbb"));
    let error = value.verify_artifact(root, &stored(root, "/p/elsewhere", &contents)).unwrap_err();
    assert_eq!(error.message(), "artifact path escapes the .pit directory");
    assert_eq!(error.kind, ErrorKind::Path);
    let gone = StoredArtifact { pit_root: Some("/p/.pit".into()), path: None, contents: None };
    assert_eq!(
        value.verify_artifact(root, &gone).unwrap_err().message(),
        "artifact does not exist: /p/.pit/build/hello.wasm"
    );
    let nothing = StoredArtifact { pit_root: None, path: None, contents: None };
    assert_eq!(
        value.verify_artifact(root, &nothing).unwrap_err().message(),
        "failed to access /p/.pit"
    );
    let mut other = value.clone();
    other.runtime.abi = RuntimeAbi("wasi-future".into());
    other.runtime.format = ArtifactFormat::Component;
    assert_eq!(
        other.verify_artifact(root, &stored(root, place, &contents)).unwrap_err().message(),
        "artifact format mismatch: manifest component, actual core-module"
    );
}

#[test]
fn the_manifest_text_is_fixed() {
    let text = manifest().to_json().unwrap();
    assert!(text.starts_with("{\n  \"schema_version\": 1,\n  \"artifact\": {\n    \"name\": \"hello\","));
    assert!(text.ends_with("  \"capabilities\": [\n    \"stdio\",\n    \"args\",\n    \"env\"\n  ]\n}\n"));
}

#[test]
fn each_rule_of_the_contract_is_told() {
    let cases: Vec<(&str, fn(&mut ArtifactManifest))> = vec![
        ("unsupported PitFast artifact schema version 2; supported version is 1", |m| {
            m.schema_version = 2
        }),
        ("artifact name must not be empty", |m| m.artifact.name = " ".into()),
        ("artifact path must be a non-empty relative path inside .pit", |m| {
            m.artifact.path = "/abs".into()
        }),
        ("artifact size_bytes must be greater than zero", |m| m.artifact.size_bytes = 0),
        ("build metadata is incomplete or has an invalid fingerprint", |m| {
            m.build.fingerprint = "b".repeat(63)
        }),
        ("runtime entrypoint must not be empty", |m| {
            m.runtime.entrypoint = Entrypoint::from_string("".into())
        }),
        ("runtime ABI 'wasi-preview1' requires core-module format", |m| {
            m.runtime.format = ArtifactFormat::Component
        }),
        ("component world is only valid for wasi-preview2 artifacts", |m| {
            m.runtime.world = Some(ComponentWorld::WasiHttpProxy)
        }),
        ("manifest declares an unsupported capability", |m| {
            m.capabilities.push(Capability("network".into()))
        }),
    ];
    for (message, change) in cases {
        let mut value = manifest();
        change(&mut value);
        let error = value.validate().unwrap_err();
        assert_eq!(error.message(), message);
        assert!(value.to_json().is_err());
    }
}

#[test]
fn names_are_read() {
    assert_eq!(RuntimeAbi::from_str("wasi-preview2").unwrap().target(), Some("wasm32-wasip2"));
    assert!(RuntimeAbi::from_str("posix").is_err());
    assert_eq!(
        ComponentWorld::from_str("wasi:http/proxy").unwrap(),
        ComponentWorld::WasiHttpProxy
    );
    assert!(ComponentWorld::from_str("wasi:nothing").is_err());
    assert_eq!(BuildProfile::Debug.cargo_directory(), "debug");
    assert_eq!(manifest_path("/p"), "/p/.pit/artifact.json");
}

const RUNTIME: &str = "{\"abi\":\"wasi-preview1\",\"entrypoint\":\"_start\"}";

fn loads(text: &str) -> bool {
    ArtifactManifest::load("m.json", Some(text.as_bytes())).is_ok()
}

#[test]
fn known_field_given_twice_is_refused() {
    let text = legacy(RUNTIME);
    assert!(loads(&text));
    let again = text.replacen("{", "{\"schema_version\":1,", 1);
    let error = ArtifactManifest::load("m.json", Some(again.as_bytes())).unwrap_err();
    assert_eq!(error.message(), "malformed artifact manifest m.json");
    assert!(!loads(&text.replace("\"size_bytes\":1", "\"size_bytes\":1,\"size_bytes\":1")));
    assert!(!loads(&text.replace("\"size_bytes\":1", "\"size_bytes\":1,\"n\\u0061me\":\"x\"")));
    assert!(!loads(&text.replace("\"execution\":{}", "\"execution\":{},\"execution\":{}")));
    let toolchain = "\"language\":\"rust\",\"toolchain\":null";
    assert!(loads(&text.replace("\"language\":\"rust\"", toolchain)));
    let toolchains = "\"language\":\"rust\",\"toolchain\":null,\"toolchain\":null";
    assert!(!loads(&text.replace("\"language\":\"rust\"", toolchains)));
}

fn with_ignored(value: &str) -> String {
    legacy(RUNTIME).replacen("{", &format!("{{\"extra\" : {value} ,"), 1)
}

#[test]
fn ignored_members_are_passed_over() {
    let plain = ArtifactManifest::load("m.json", Some(legacy(RUNTIME).as_bytes())).unwrap();
    let deep = format!("{}{}", "[".repeat(5000), "]".repeat(5000));
    let mut deep_objects = "{\"a\":".repeat(500);
    deep_objects.push('1');
    deep_objects.push_str(&"}".repeat(500));
    for value in [
        "1",
        "1e999",
        "-1e999",
        "99999999999999999999999999999999999999999999",
        "\"\\ud800\"",
        "\"}],:{[\\\"\\\\\"",
        "{ \"name\" : 1, \"name\" : 2 }",
        deep.as_str(),
        deep_objects.as_str(),
    ] {
        let text = with_ignored(value);
        let read = ArtifactManifest::load("m.json", Some(text.as_bytes()));
        assert_eq!(read.as_ref(), Ok(&plain), "{value}");
        let nested =
            legacy(RUNTIME).replace("\"size_bytes\":1", &format!("\"size_bytes\":1,\"x\":{value}"));
        let read = ArtifactManifest::load("m.json", Some(nested.as_bytes()));
        assert_eq!(read.as_ref(), Ok(&plain), "{value}");
    }
    let mut bytes = with_ignored("\"*\"").into_bytes();
    let star = bytes.iter().position(|b| *b == b'*').unwrap();
    bytes[star] = 0xff;
    assert_eq!(ArtifactManifest::load("m.json", Some(&bytes)), Ok(plain.clone()));
    let twice = with_ignored("1, \"extra\": 2");
    assert_eq!(ArtifactManifest::load("m.json", Some(twice.as_bytes())), Ok(plain));
}

#[test]
fn ignored_members_are_still_json() {
    for value in ["", "nul", "01", "[1,]", "{\"a\" 1}", "\"\\x\"", "1 2", "[", "]"] {
        assert!(!loads(&with_ignored(value)), "{value}");
    }
    assert!(!loads(&legacy(RUNTIME).replacen("{", "{\"\\ud800\":1,", 1)));
    assert!(!loads(&format!("{}x", legacy(RUNTIME))));
    assert!(!loads(&legacy(RUNTIME).replacen("{", "{,", 1)));
    assert!(loads(&format!(" \t\r\n{} \t\r\n", legacy(RUNTIME))));
}

#[test]
fn kept_fields_are_read_in_full() {
    let text = legacy(RUNTIME);
    for name in ["\"\\ud800\"", "1", "null", "[\"hello\"]"] {
        assert!(!loads(&text.replace("\"hello\"", name)), "{name}");
    }
    for size in ["1e999", "-1", "1.0", "18446744073709551616", "\"1\""] {
        let changed = text.replace("\"size_bytes\":1", &format!("\"size_bytes\":{size}"));
        assert!(!loads(&changed), "{size}");
    }
}

#[test]
fn variants_have_one_name() {
    let text = legacy(RUNTIME);
    let with_profile = |profile: &str| text.replace("\"release\"", profile);
    assert!(loads(&with_profile("\"debug\"")));
    assert!(loads(&with_profile("{ \"debug\" : null }")));
    assert!(!loads(&with_profile("{\"debug\":1}")));
    assert!(!loads(&with_profile("{\"debug\":null,\"debug\":null}")));
    assert!(!loads(&with_profile("{\"debug\":null,\"release\":null}")));
    assert!(!loads(&with_profile("{}")));
}

#[test]
fn records_can_be_lists() {
    let plain = ArtifactManifest::load("m.json", Some(legacy(RUNTIME).as_bytes())).unwrap();
    let listed = legacy("[\"wasi-preview1\" , \"_start\"]");
    assert_eq!(ArtifactManifest::load("m.json", Some(listed.as_bytes())), Ok(plain));
    let long = legacy("[\"wasi-preview1\",\"_start\",\"core-module\",null,1]");
    assert!(!loads(&long));
    assert!(!loads(&legacy("[]")));
    assert!(!loads(&legacy("\"wasi-preview1\"")));
}

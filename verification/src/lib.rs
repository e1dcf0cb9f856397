//! Build orchestration for PitFast projects: the artifact contract, language
//! builders, application adapters and the decisions of a build.

pub mod adapter;
pub mod artifact;
pub mod bridge_laws;
pub mod bridges;
pub mod build_laws;
pub mod builder;
pub mod cache;
pub mod call_laws;
pub mod cargo_laws;
pub mod choice_laws;
pub mod component_laws;
pub mod crew;
pub mod crew_laws;
pub mod dependency_laws;
pub mod detection_laws;
pub mod digest;
pub mod document_laws;
pub mod error;
pub mod experimental_builder;
pub mod external_adapter;
pub mod fingerprint;
pub mod fingerprint_laws;
pub mod form_laws;
pub mod forms;
pub mod found_laws;
pub mod go_builder;
pub mod go_net_http;
pub mod handler_laws;
pub mod identity_laws;
pub mod javascript_fetch;
pub mod js_builder;
pub mod json;
pub mod language;
pub mod list_laws;
pub mod manifest_json;
pub mod manifest_laws;
pub mod native_builder;
pub mod ordering;
pub mod package_laws;
pub mod path_laws;
pub mod paths;
pub mod plan_laws;
pub mod project;
pub mod python_asgi;
pub mod python_builder;
pub mod python_deps;
pub mod python_packages;
pub mod python_report;
pub mod quoted;
pub mod raw_artifact;
pub mod report_laws;
pub mod request;
pub mod requirement_laws;
pub mod reuse_laws;
pub mod rust_builder;
pub mod selection;
pub mod session;
pub mod session_laws;
pub mod source_laws;
pub mod standard_adapter;
pub mod text;
pub mod tool_laws;
pub mod tooling;
pub mod validation;
pub mod walk;
pub mod walk_laws;
pub mod wasm;
pub mod workspace_laws;

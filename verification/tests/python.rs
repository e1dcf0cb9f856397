use pit_crew::project::{
    CompatibilityCertainty, CompatibilityStatus, ProjectInspection, PythonDistribution,
};
use pit_crew::python_deps::{
    normalize_distribution_name, parse_dependency_token, python_direct_dependencies,
};
use pit_crew::python_packages::{
    is_metadata_directory, metadata_field, package_roots, package_search_roots,
    read_distribution, NamedSearch, NativeSearch,
};
use pit_crew::python_report::inspect_python_dependencies;
use pit_crew::walk::{DirectoryEntry, DirectoryListing, EntryKind};

fn project(files: &[(&str, &str)], packages: Vec<PythonDistribution>) -> ProjectInspection {
    let mut names = Vec::new();
    let mut sources = Vec::new();
    for (name, text) in files {
        names.push((*name).to_string());
        sources.push(((*name).to_string(), (*text).to_string()));
    }
    names.sort();
    ProjectInspection { root: "/p".to_string(), files: names, sources, packages }
}

#[test]
fn dependency_tokens_are_read() {
    assert_eq!(parse_dependency_token("fastapi==0.1 # web").as_deref(), Some("fastapi"));
    assert_eq!(parse_dependency_token("  \"uvicorn[standard]>=1\",").as_deref(), Some("uvicorn"));
    assert_eq!(parse_dependency_token("x; python_version < '3'").as_deref(), Some("x"));
    assert_eq!(parse_dependency_token("# only a comment"), None);
    assert_eq!(parse_dependency_token("-r other.txt"), None);
    assert_eq!(parse_dependency_token("3to2"), None);
    assert_eq!(parse_dependency_token("attrs (>=1)").as_deref(), Some("attrs"));
    assert_eq!(parse_dependency_token("attrs @ https://x.org/attrs").as_deref(), Some("attrs"));
    assert_eq!(normalize_distribution_name(" Pydantic_Core.x "), "pydantic-core-x");
}

#[test]
fn direct_dependencies_come_from_three_files() {
    let found = python_direct_dependencies(&project(
        &[
            ("requirements.txt", "Starlette>=1\nfalcon\n"),
            ("pyproject.toml", "[project]\ndependencies = [\n  \"httpx~=0.2\",\n  \"starlette\"\n]\n"),
            ("setup.py", "setup(install_requires=['attrs'])\n"),
        ],
        Vec::new(),
    ));
    assert_eq!(found, vec!["attrs", "falcon", "httpx", "Starlette"]);
}

#[test]
fn brackets_in_items_do_not_close_a_list() {
    let extras = python_direct_dependencies(&project(
        &[(
            "pyproject.toml",
            "[project]\ndependencies = [\n  \"uvicorn[standard]\",\n  \"starlette\",\n]\n",
        )],
        Vec::new(),
    ));
    assert_eq!(extras, vec!["starlette", "uvicorn"]);
    let one_line = python_direct_dependencies(&project(
        &[("pyproject.toml", "dependencies=['a[x,y]>=1,<2', \"b; c == \\\"]\\\"\"] # d, e\nf = [\"g\"]\n")],
        Vec::new(),
    ));
    assert_eq!(one_line, vec!["a", "b"]);
    let tables = python_direct_dependencies(&project(
        &[(
            "pyproject.toml",
            "[project.optional-dependencies]\ntest = [\"pytest\"]\n[tool.poetry.dependencies]\n",
        )],
        Vec::new(),
    ));
    assert!(tables.is_empty());
}

#[test]
fn only_what_is_required_for_the_installation_is_declared() {
    let declared = |setup: &str| {
        python_direct_dependencies(&project(&[("setup.py", setup)], Vec::new()))
    };
    assert_eq!(declared("setup(\n    install_requires=[\"flask\"],\n)\n"), vec!["flask"]);
    assert_eq!(
        declared("setup(\n    install_requires = [\n  'b[x]',  # why\n  'a',\n  ],\n  name='c')\n"),
        vec!["a", "b"]
    );
    assert!(declared("setup(install_requires=read(), classifiers=['x'])\n").is_empty());
    assert!(declared("# install_requires=['x']\n").is_empty());
}

fn distribution(name: &str, required: &[&str], native: Option<&str>) -> PythonDistribution {
    PythonDistribution {
        name: name.to_string(),
        root: "/site".to_string(),
        metadata_dir: format!("/site/{name}.dist-info"),
        required: required.iter().map(|r| r.to_string()).collect(),
        wheel_tags: vec![
            if native.is_some() { "cp313-cp313-manylinux" } else { "py3-none-any" }.to_string(),
        ],
        native: native.map(|n| n.to_string()),
    }
}

#[test]
fn native_dependencies_block_the_build() {
    let report = inspect_python_dependencies(&project(
        &[("requirements.txt", "fastapi\n")],
        vec![
            distribution("fastapi", &["pydantic"], None),
            distribution("pydantic", &["pydantic_core"], None),
            distribution("pydantic_core", &[], Some("/site/pydantic_core/_core.so")),
        ],
    ));
    assert_eq!(report.status, CompatibilityStatus::Unsupported);
    assert!(report.blocks_build());
    assert_eq!(report.findings.len(), 1);
    let finding = &report.findings[0];
    assert_eq!(finding.category, "native-extension");
    assert_eq!(finding.dependency_path, ["fastapi", "pydantic", "pydantic_core"]);
    assert_eq!(finding.evidence.len(), 2);
    assert_eq!(
        finding.evidence[0].detail,
        "pydantic_core contains a native extension; wheel tags: cp313-cp313-manylinux"
    );
}

#[test]
fn unknown_dependencies_are_potential_issues() {
    let report = inspect_python_dependencies(&project(
        &[("requirements.txt", "mystery\n"), ("main.py", "import subprocess\n")],
        Vec::new(),
    ));
    assert_eq!(report.status, CompatibilityStatus::PotentiallyUnsupported);
    assert!(!report.blocks_build());
    assert_eq!(report.findings[0].category, "dependency-resolution");
    assert_eq!(report.findings[0].certainty, CompatibilityCertainty::Unknown);
    assert_eq!(report.findings[1].category, "subprocess");
    assert_eq!(report.findings[1].certainty, CompatibilityCertainty::Potential);
}

#[test]
fn projects_without_dependencies_are_supported() {
    let report = inspect_python_dependencies(&project(&[("main.py", "app = 1\n")], Vec::new()));
    assert_eq!(report.status, CompatibilityStatus::Supported);
    assert_eq!(report.messages[0], "no declared Python dependencies to inspect");
    let pure = inspect_python_dependencies(&project(
        &[("requirements.txt", "falcon\n")],
        vec![distribution("falcon", &["falcon"], None)],
    ));
    assert_eq!(pure.status, CompatibilityStatus::Supported);
    assert_eq!(
        pure.messages[0],
        "declared Python dependencies have no confirmed native incompatibility"
    );
}

#[test]
fn paths_to_packages_are_the_shortest() {
    let report = inspect_python_dependencies(&project(
        &[("requirements.txt", "a\nc\n")],
        vec![
            distribution("a", &["b"], None),
            distribution("b", &["d"], None),
            distribution("c", &["D"], None),
            distribution("d", &["a", "e"], Some("/site/d/d.so")),
        ],
    ));
    assert_eq!(report.findings.len(), 2);
    assert_eq!(report.findings[0].package.as_deref(), Some("d"));
    assert_eq!(report.findings[0].dependency_path, ["c", "D"]);
    assert_eq!(report.findings[1].package.as_deref(), Some("e"));
    assert_eq!(report.findings[1].dependency_path, ["c", "D", "e"]);
}

#[test]
fn host_assumptions_are_potential_issues() {
    let report =
        inspect_python_dependencies(&project(&[("main.py", "import threading\n")], Vec::new()));
    assert_eq!(report.status, CompatibilityStatus::PotentiallyUnsupported);
    assert_eq!(report.findings.len(), 1);
    assert_eq!(report.findings[0].category, "thread");
    assert_eq!(report.findings[0].certainty, CompatibilityCertainty::Potential);
    assert!(!report.blocks_build());
    let files = inspect_python_dependencies(&project(
        &[("main.py", "from pathlib import Path\nimport shutil, tempfile\n")],
        Vec::new(),
    ));
    assert_eq!(files.findings.len(), 3);
    assert!(files.findings.iter().all(|finding| finding.category == "filesystem"));
}

#[test]
fn platform_wheels_are_unknown() {
    let mut wheel = distribution("fast", &[], None);
    wheel.wheel_tags = vec!["cp313-cp313-manylinux".to_string()];
    let report =
        inspect_python_dependencies(&project(&[("requirements.txt", "fast\n")], vec![wheel]));
    assert_eq!(report.status, CompatibilityStatus::PotentiallyUnsupported);
    assert_eq!(report.findings.len(), 1);
    assert_eq!(report.findings[0].category, "platform-wheel");
    assert_eq!(report.findings[0].certainty, CompatibilityCertainty::Unknown);
    assert_eq!(
        report.findings[0].evidence[0].detail,
        "fast wheel tags: cp313-cp313-manylinux"
    );
    assert!(!report.blocks_build());
}

#[test]
fn distributions_are_read() {
    let d = read_distribution(
        "/site/Pydantic-2.dist-info",
        "Name: pydantic\nRequires-Dist: pydantic-core (==2.0)\nRequires-Dist: email; extra == 'e'\n\
         Requires-Dist: typing_extensions>=4 ; python_version > '3'\n",
        Some("Wheel-Version: 1.0\nTag: py3-none-any\n"),
    );
    assert_eq!(d.name, "pydantic");
    assert_eq!(d.root, "/site");
    assert_eq!(d.required, ["pydantic-core", "typing_extensions"]);
    assert_eq!(d.wheel_tags, ["py3-none-any"]);
    let unnamed = read_distribution("/site/other.dist-info", "", None);
    assert_eq!(unnamed.name, "other");
    assert_eq!(metadata_field("A: 1\nName:  x \n", "Name").as_deref(), Some("x"));
    assert!(is_metadata_directory("x.egg-info"));
    assert!(!is_metadata_directory("x.info"));
    assert_eq!(package_roots(&d, Some("a\n\n b \n")), ["/site/a", "/site/b"]);
    assert_eq!(package_roots(&d, None), ["/site/pydantic"]);
}

fn directories(names: &[&str]) -> DirectoryListing {
    let mut entries = Vec::new();
    for name in names {
        entries.push(DirectoryEntry { name: (*name).to_string(), kind: EntryKind::Directory });
    }
    DirectoryListing::new(entries)
}

#[test]
fn site_packages_are_searched() {
    let roots = package_search_roots("/p", &Some("/env".to_string()), &None);
    assert_eq!(roots, ["/p/.venv/lib", "/p/venv/lib", "/env/lib"]);
    let mut search = NamedSearch::new(vec!["/p/.venv/lib".to_string()], "site-packages");
    let mut listed = Vec::new();
    while let Some(directory) = search.next() {
        if directory == "/p/.venv/lib" {
            search.listed(&directories(&["python3.13"]));
        } else {
            search.listed(&directories(&["site-packages", "other"]));
        }
        listed.push(directory);
    }
    assert_eq!(search.into_found()[0], "/p/.venv/lib/python3.13/site-packages");
}

#[test]
fn native_extensions_are_found() {
    let mut search = NativeSearch::new(vec!["/site/pkg".to_string()]);
    while let Some(path) = search.next() {
        if path == "/site/pkg" {
            search.seen(Some(vec!["a.py".to_string(), "b.so".to_string()]));
        } else {
            search.seen(None);
        }
    }
    assert_eq!(search.into_found().as_deref(), Some("/site/pkg/b.so"));
}

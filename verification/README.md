# PitCrew

PitCrew is a build orchestrator: language builders and application adapters turn
source projects into one validated artifact contract. This crate holds its
decisions as a library verified with Verus, and the surroundings that carry them
out.

```text
source project -> adapter -> language builder -> WASI Component -> .pit/artifact.json
```

## Layout

- `src/` is the verified library.
  - `artifact`, `validation`, `forms`, `manifest_json`: the manifest, its rules, its
    JSON form, and what it takes for an artifact to be intact.
  - `request`, `language`, `project`, `walk`: requests, names, and what is known
    of a project.
  - `adapter`, `python_asgi`, `javascript_fetch`, `go_net_http`,
    `external_adapter`, `standard_adapter`, `bridges`: application adapters and
    the bridges they generate.
  - `python_deps`, `python_packages`, `python_report`: whether the dependencies of
    a Python project can be loaded.
  - `builder`, `tooling` and the `*_builder` modules: what language builders run
    and how they judge what came back.
  - `selection`, `cache`, `raw_artifact`, `crew`, `session`: the build itself, from
    the request to the manifest.
  - `bridge_laws`, `build_laws`, `dependency_laws`, `detection_laws`, `form_laws`,
    `identity_laws`, `reuse_laws`, `walk_laws`: properties that span modules.
  - `text`, `quoted`, `paths`, `ordering`, `digest`, `wasm`, `json`, `fingerprint`, `error`:
    what the rest is built from, and the only places where outside crates are called.
- `app/` reads and writes files, runs tools and drives the library. It decides
  nothing.
- `tests/` runs the library on concrete values.

## How a build runs

`PitCrew::build_with_status` gives a `BuildSession`. `next` says what has to be
done, the surrounding program does it, and `replied` takes the outcome. When `next`
has nothing more to ask for, `finish` gives the artifact. The contracts of these
functions fix each question and each step, so every run of the session is one that
the properties in `build_laws` and `reuse_laws` speak of. Builders and searches work the same way.

## What is trusted

Nothing is proved of SHA-256, of the WebAssembly, JSON and TOML parsers, or of how
text is quoted and repaired. Each such call stands in a function of its own whose
comment says what is taken for granted.

//! What documents are read as: the fields of a local adapter and of what Cargo says, each
//! under its key.

use crate::external_adapter;
use crate::external_adapter::ExternalView;
use crate::json;
use crate::json::JsonView;
use crate::language;
use crate::language::Language;
use crate::rust_builder;
use crate::rust_builder::{MetadataView, TargetView};
use vstd::prelude::*;

verus! {

/// Whether a member of an object is the text.
pub open spec fn is_text(members: Seq<(Seq<char>, JsonView)>, key: Seq<char>, t: Seq<char>) -> bool {
    json::lookup(members, key) == Some(JsonView::Text(t))
}

/// A list of texts.
pub open spec fn texts_document(texts: Seq<Seq<char>>) -> JsonView {
    JsonView::List(texts.map_values(|t: Seq<char>| JsonView::Text(t)))
}

proof fn lemma_text_list(texts: Seq<Seq<char>>)
    ensures
        json::text_list(texts_document(texts)) == Some(texts),
{
    let s = texts.map_values(|t: Seq<char>| JsonView::Text(t));
    assert(s.map_values(|v: JsonView| v->Text_0) =~= texts);
}

/// A language is read under its name.
pub proof fn languages_are_read_under_their_names(l: Language)
    ensures
        external_adapter::decode_language(
            Some(JsonView::Text(language::language_text(l))),
        ) == Some(l),
{
    assert forall|a: Language, b: Language|
        #[trigger] language::language_text(a) == #[trigger] language::language_text(
            b,
        ) implies a == b by {
        language::language_names_differ(a, b);
    }
    assert(language::language_text(Language::Rust) == "rust"@);
    assert(language::language_text(Language::Go) == "go"@);
    assert(language::language_text(Language::C) == "c"@);
    assert(language::language_text(Language::Cpp) == "cpp"@);
    assert(language::language_text(Language::JavaScript) == "javascript"@);
    assert(language::language_text(Language::TypeScript) == "typescript"@);
    assert(language::language_text(Language::Python) == "python"@);
    assert(language::language_text(Language::CSharp) == "csharp"@);
    assert(language::language_text(Language::Java) == "java"@);
}

/// The document of a local adapter is read under its keys.
pub proof fn local_adapters_are_read_under_their_keys(
    m: Seq<(Seq<char>, JsonView)>,
    a: Seq<(Seq<char>, JsonView)>,
    g: Seq<(Seq<char>, JsonView)>,
    e: ExternalView,
)
    requires
        json::lookup(m, "schema"@) == Some(JsonView::Number(Some(e.schema as u64))),
        json::lookup(m, "adapter"@) == Some(JsonView::Object(a)),
        json::lookup(m, "generator"@) == Some(JsonView::Object(g)),
        is_text(a, "id"@, e.id),
        is_text(a, "language"@, language::language_text(e.language)),
        is_text(a, "interface"@, e.interface),
        is_text(a, "target"@, e.target),
        is_text(a, "version"@, e.version),
        is_text(g, "kind"@, e.kind),
        is_text(g, "entrypoint"@, e.entrypoint),
        json::lookup(g, "files"@) == Some(texts_document(e.files)) || (json::lookup(g, "files"@)
            is None && e.files.len() == 0),
    ensures
        external_adapter::decode_external(JsonView::Object(m)) == Some(e),
{
    languages_are_read_under_their_names(e.language);
    lemma_text_list(e.files);
    if e.files.len() == 0 {
        assert(e.files =~= Seq::<Seq<char>>::empty());
    }
}

/// What Cargo says of a project with one package is read under its keys.
pub proof fn cargo_documents_are_read_under_their_keys(
    m: Seq<(Seq<char>, JsonView)>,
    p: Seq<(Seq<char>, JsonView)>,
    t: Seq<(Seq<char>, JsonView)>,
    directory: Seq<char>,
    name: Seq<char>,
    kind: Seq<Seq<char>>,
)
    requires
        is_text(m, "target_directory"@, directory),
        json::lookup(m, "packages"@) == Some(JsonView::List(seq![JsonView::Object(p)])),
        json::lookup(p, "targets"@) == Some(JsonView::List(seq![JsonView::Object(t)])),
        is_text(t, "name"@, name),
        json::lookup(t, "kind"@) == Some(texts_document(kind)),
    ensures
        rust_builder::decode_metadata(JsonView::Object(m)) == Some(
            MetadataView {
                targets: seq![TargetView { name, kind }],
                target_directory: directory,
            },
        ),
{
    lemma_text_list(kind);
    let target = TargetView { name, kind };
    let list = seq![JsonView::Object(t)];
    assert(rust_builder::decode_target(JsonView::Object(t)) == Some(target));
    assert(list.drop_last() =~= Seq::<JsonView>::empty());
    assert(rust_builder::decode_targets(list.drop_last()) == Some(Seq::<TargetView>::empty()));
    assert(Seq::<TargetView>::empty().push(target) =~= seq![target]);
    assert(rust_builder::decode_targets(list) == Some(seq![target]));
    assert(rust_builder::decode_package(JsonView::Object(p)) == Some(seq![target]));
    let packages = seq![JsonView::Object(p)];
    assert(packages.drop_last() =~= Seq::<JsonView>::empty());
    assert(rust_builder::decode_packages(packages.drop_last()) == Some(
        Seq::<TargetView>::empty(),
    ));
    assert(Seq::<TargetView>::empty() + seq![target] =~= seq![target]);
    assert(rust_builder::decode_packages(packages) == Some(seq![target]));
}

} // verus!

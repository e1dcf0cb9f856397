use pit_crew::language::{AdapterId, ApplicationInterface, Language};

#[test]
fn language_names_are_stable() {
    for language in Language::ALL {
        assert_eq!(Language::from_str(language.as_str()).unwrap(), language);
    }
    assert_eq!(Language::Cpp.as_str(), "cpp");
    assert_eq!(Language::CSharp.as_str(), "csharp");
}

#[test]
fn extensible_identifiers_are_stable_and_validated() {
    assert_eq!(
        ApplicationInterface::new("python/asgi").unwrap().as_str(),
        "python/asgi"
    );
    assert_eq!(
        AdapterId::new("local/banana-http").unwrap().as_str(),
        "local/banana-http"
    );
    assert!(ApplicationInterface::new("ASGI").is_err());
    assert!(ApplicationInterface::new("../asgi").is_err());
    assert!(AdapterId::new("local/").is_err());
}

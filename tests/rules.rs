use doc_printer::rules::{
    deprecated_function, is_any_ancestor_declaration, major_version, parse_decimal, str_eq, ModuleDeclaration,
    ModuleDeclarationKind, NoDeprecatedFunctions, NoNamespace,
};

fn decl(kind: ModuleDeclarationKind, name: Option<&str>, declare: bool) -> ModuleDeclaration {
    ModuleDeclaration { kind, name: name.map(|n| n.to_string()), declare }
}

#[test]
fn strings_compare_by_characters() {
    assert!(str_eq("jest", "jest"));
    assert!(!str_eq("jest", "jess"));
    assert!(!str_eq("jest", "jest."));
    assert!(str_eq("", ""));
}

#[test]
fn major_version_is_the_part_before_the_first_dot() {
    assert_eq!(major_version("25.1.1"), "25");
    assert_eq!(major_version("17.2"), "17");
    assert_eq!(major_version("26.0.0-next.11"), "26");
    assert_eq!(major_version("29"), "29");
    assert_eq!(major_version(""), "");
}

#[test]
fn decimal_parsing() {
    assert_eq!(parse_decimal("27"), Some(27));
    assert_eq!(parse_decimal("+8"), Some(8));
    assert_eq!(parse_decimal(""), None);
    assert_eq!(parse_decimal("+"), None);
    assert_eq!(parse_decimal("2a"), None);
    assert_eq!(parse_decimal("-1"), None);
    assert_eq!(parse_decimal("99999999999999999999999"), None);
    assert_eq!(parse_decimal(&usize::MAX.to_string()), Some(usize::MAX));
}

#[test]
fn deprecated_functions_table() {
    assert_eq!(deprecated_function("jest.resetModuleRegistry"), Some((15, "jest.resetModules")));
    assert_eq!(deprecated_function("require.requireActual"), Some((21, "jest.requireMock")));
    assert_eq!(deprecated_function("jest.resetModules"), None);
}

#[test]
fn deprecation_depends_on_the_configured_version() {
    let rule = NoDeprecatedFunctions::from_configuration(Some("25.1.1"));
    assert_eq!(rule.config().jest().version(), "25");
    assert_eq!(rule.check("jest.resetModuleRegistry"), Some("jest.resetModules"));
    assert_eq!(rule.check("jest.genMockFromModule"), None);
    let rule = NoDeprecatedFunctions::from_configuration(Some("26.0.0-next.11"));
    assert_eq!(rule.check("jest.genMockFromModule"), Some("jest.createMockFromModule"));
    let rule = NoDeprecatedFunctions::from_configuration(Some("17.2"));
    assert_eq!(rule.check("jest.addMatchers"), Some("expect.extend"));
    assert_eq!(rule.check("require.requireMock"), None);
    let rule = NoDeprecatedFunctions::from_configuration(None);
    assert_eq!(rule.config().jest().version(), "29");
    assert_eq!(rule.check("jest.runTimersToTime"), Some("jest.advanceTimersByTime"));
    assert_eq!(rule.check("require('fs')"), None);
    let rule = NoDeprecatedFunctions::from_configuration(Some("latest"));
    assert_eq!(rule.check("jest.genMockFromModule"), Some("jest.createMockFromModule"));
}

#[test]
fn namespace_options() {
    let rule = NoNamespace::default();
    assert!(rule.should_run(true, false));
    assert!(!rule.should_run(true, true));
    assert!(!rule.should_run(false, false));
    let rule = NoNamespace::from_configuration(Some(true), Some(false));
    assert!(rule.should_run(true, true));
    assert_eq!(NoNamespace::from_configuration(None, None), NoNamespace::default());
}

#[test]
fn namespaces_are_reported() {
    let rule = NoNamespace::default();
    assert_eq!(rule.run(&decl(ModuleDeclarationKind::Module, Some("foo"), false), false, &[]), Some("module"));
    assert_eq!(rule.run(&decl(ModuleDeclarationKind::Namespace, Some("foo"), false), false, &[]), Some("namespace"));
    assert_eq!(rule.run(&decl(ModuleDeclarationKind::Module, Some("foo"), true), false, &[]), Some("module"));
    assert_eq!(rule.run(&decl(ModuleDeclarationKind::Namespace, Some("foo"), true), false, &[]), Some("namespace"));
}

#[test]
fn string_named_global_and_nested_are_not_reported() {
    let rule = NoNamespace::default();
    assert_eq!(rule.run(&decl(ModuleDeclarationKind::Module, None, true), false, &[]), None);
    assert_eq!(rule.run(&decl(ModuleDeclarationKind::Global, Some("global"), true), false, &[]), None);
    assert_eq!(rule.run(&decl(ModuleDeclarationKind::Namespace, Some("Bar"), false), true, &[Some(false)]), None);
}

#[test]
fn declarations_are_allowed_on_request() {
    let rule = NoNamespace::from_configuration(Some(true), None);
    assert_eq!(rule.run(&decl(ModuleDeclarationKind::Module, Some("foo"), true), false, &[]), None);
    assert_eq!(rule.run(&decl(ModuleDeclarationKind::Namespace, Some("foo"), true), false, &[]), None);
    assert_eq!(rule.run(&decl(ModuleDeclarationKind::Namespace, Some("foo"), false), false, &[None, Some(true)]), None);
    assert_eq!(rule.run(&decl(ModuleDeclarationKind::Namespace, Some("foo"), false), false, &[None, Some(false)]), Some("namespace"));
    assert_eq!(rule.run(&decl(ModuleDeclarationKind::Module, Some("foo"), false), false, &[]), Some("module"));
}

#[test]
fn ancestor_declarations() {
    assert!(!is_any_ancestor_declaration(&[]));
    assert!(!is_any_ancestor_declaration(&[None, Some(false)]));
    assert!(is_any_ancestor_declaration(&[None, Some(false), Some(true)]));
}

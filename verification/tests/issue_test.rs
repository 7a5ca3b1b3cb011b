use turbopack::issue::{ModuleIssue, ModuleIssueKind};

#[test]
fn invalid_module_type_issue_texts() {
    let i = ModuleIssue::new(3, ModuleIssueKind::InvalidModuleType);
    assert_eq!(i.ident, 3);
    assert_eq!(i.category(), "other");
    assert_eq!(i.title(), "Invalid module type");
    assert_eq!(
        i.description(),
        "The module type must be Ecmascript or Typescript to add Ecmascript transforms"
    );
}

#[test]
fn missing_module_type_issue_texts() {
    let i = ModuleIssue::new(4, ModuleIssueKind::MissingModuleType);
    assert_eq!(i.title(), "Missing module type");
    assert_eq!(
        i.description(),
        "The module type effect must be applied before adding Ecmascript transforms"
    );
}

//! Issues that processing reports about a module.
use vstd::prelude::*;

verus! {

/// The issues the rule walk can report.
#[derive(Clone, Copy, PartialEq, Eq, Structural, Debug)]
pub enum ModuleIssueKind {
    /// Ecmascript transforms were added to a module type that is not ECMAScript.
    InvalidModuleType,
    /// Ecmascript transforms were added before any module type was chosen.
    MissingModuleType,
}

/// The title of an issue of this kind.
pub open spec fn spec_title(k: ModuleIssueKind) -> Seq<char> {
    match k {
        ModuleIssueKind::InvalidModuleType => "Invalid module type"@,
        ModuleIssueKind::MissingModuleType => "Missing module type"@,
    }
}

/// The description of an issue of this kind.
pub open spec fn spec_description(k: ModuleIssueKind) -> Seq<char> {
    match k {
        ModuleIssueKind::InvalidModuleType =>
            "The module type must be Ecmascript or Typescript to add Ecmascript transforms"@,
        ModuleIssueKind::MissingModuleType =>
            "The module type effect must be applied before adding Ecmascript transforms"@,
    }
}

/// Each kind of issue has its own title and description: a module type that
/// cannot take ECMAScript transforms is invalid, and transforms added before any
/// module type find it missing.
pub proof fn law_issue_texts(k: ModuleIssueKind)
    ensures
        k == ModuleIssueKind::InvalidModuleType ==> spec_title(k) == "Invalid module type"@
            && spec_description(k)
            == "The module type must be Ecmascript or Typescript to add Ecmascript transforms"@,
        k == ModuleIssueKind::MissingModuleType ==> spec_title(k) == "Missing module type"@
            && spec_description(k)
            == "The module type effect must be applied before adding Ecmascript transforms"@,
{
}

/// An issue about a module, identified by the handle of the module's identity.
#[derive(Debug)]
pub struct ModuleIssue {
    pub ident: u64,
    pub title: String,
    pub description: String,
}

impl ModuleIssue {
    /// The issue of kind `kind` about the module `ident`.
    pub fn new(ident: u64, kind: ModuleIssueKind) -> (r: ModuleIssue)
        ensures
            r.ident == ident,
            r.title@ == spec_title(kind),
            r.description@ == spec_description(kind),
    {
        match kind {
            ModuleIssueKind::InvalidModuleType => ModuleIssue {
                ident,
                title: String::from_str("Invalid module type"),
                description: String::from_str(
                    "The module type must be Ecmascript or Typescript to add Ecmascript transforms",
                ),
            },
            ModuleIssueKind::MissingModuleType => ModuleIssue {
                ident,
                title: String::from_str("Missing module type"),
                description: String::from_str(
                    "The module type effect must be applied before adding Ecmascript transforms",
                ),
            },
        }
    }

    /// The category of module issues: `other`.
    pub fn category(&self) -> (r: String)
        ensures
            r@ == "other"@,
    {
        String::from_str("other")
    }

    /// The title of this issue.
    pub fn title(&self) -> (r: String)
        ensures
            r@ == self.title@,
    {
        self.title.clone()
    }

    /// The description of this issue.
    pub fn description(&self) -> (r: String)
        ensures
            r@ == self.description@,
    {
        self.description.clone()
    }
}

} // verus!

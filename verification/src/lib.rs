//! Decision logic of a module bundler: rule processing, module type planning,
//! CSS `@import` attributes, asset emission plans, back-reference indexes and
//! the login flow, each stated over plain models and proved.
pub mod context;
pub mod css_import;
pub mod emit;
pub mod graph;
pub mod issue;
pub mod login;
pub mod module_type;
pub mod references;
pub mod rules;
pub mod text;
pub mod top;

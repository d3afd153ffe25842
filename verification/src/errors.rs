//! The error kinds of the plugin pipelines. Every error arising while one
//! plugin is processed is reported under one of these kinds and never aborts
//! a batch operation.

use vstd::prelude::*;

verus! {

#[derive(Clone, Copy, Debug, PartialEq, Eq, Structural)]
pub enum PluginError {
    /// The per-plugin descriptor file is absent.
    ManifestMissing,
    /// The descriptor does not hold a well-formed manifest with a non-empty
    /// `name` string.
    ManifestParseError,
    /// The module file derived from the manifest name is absent.
    ModuleNotFound,
    /// The module lacks one of the required boundary exports.
    SymbolMissing,
    /// The module file exists but could not be linked.
    ModuleLoadError,
    /// A packaged archive could not be extracted.
    ExtractionError,
    /// No live entry exists under the requested name.
    InstanceNotFound,
}

impl PluginError {
    /// The diagnostic line each error kind surfaces as.
    pub fn describe(&self) -> (r: String)
        ensures
            match self {
                PluginError::ManifestMissing => r@ == "manifest file is missing"@,
                PluginError::ManifestParseError => r@ == "manifest could not be parsed"@,
                PluginError::ModuleNotFound => r@ == "module file was not found"@,
                PluginError::SymbolMissing => r@ == "module lacks a required export"@,
                PluginError::ModuleLoadError => r@ == "module could not be linked"@,
                PluginError::ExtractionError => r@ == "archive could not be extracted"@,
                PluginError::InstanceNotFound => r@ == "no plugin under that name"@,
            },
    {
        match self {
            PluginError::ManifestMissing => "manifest file is missing".to_owned(),
            PluginError::ManifestParseError => "manifest could not be parsed".to_owned(),
            PluginError::ModuleNotFound => "module file was not found".to_owned(),
            PluginError::SymbolMissing => "module lacks a required export".to_owned(),
            PluginError::ModuleLoadError => "module could not be linked".to_owned(),
            PluginError::ExtractionError => "archive could not be extracted".to_owned(),
            PluginError::InstanceNotFound => "no plugin under that name".to_owned(),
        }
    }
}

} // verus!

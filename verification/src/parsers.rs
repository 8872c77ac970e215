//! Entry points for the configuration parsers.
//!
//! Reading and syntactically parsing project files (YAML documents, SQL
//! text with reference macros) is file-system work that the host
//! application performs; it hands the core already-parsed entities.
//! These types carry what a parsing pass needs to know: the project
//! directory it starts from.

use vstd::prelude::*;

verus! {

/// A parser for a transformation project's model and source files,
/// rooted at a project directory.
pub struct DbtProjectParser {
    project_path: String,
}

impl DbtProjectParser {
    pub closed spec fn path_view(self) -> Seq<char> {
        self.project_path@
    }

    pub fn new(project_path: String) -> (r: Self)
        ensures
            r.path_view() == project_path@,
    {
        DbtProjectParser { project_path }
    }

    /// The project directory this parser starts from.
    pub fn project_path(&self) -> (r: &String)
        ensures
            r@ == self.path_view(),
    {
        &self.project_path
    }
}

/// A parser for semantic-layer declarations found under a project
/// directory.
pub struct DbtSemanticLayerParser {
    project_path: String,
}

impl DbtSemanticLayerParser {
    pub closed spec fn path_view(self) -> Seq<char> {
        self.project_path@
    }

    pub fn new(project_path: String) -> (r: Self)
        ensures
            r.path_view() == project_path@,
    {
        DbtSemanticLayerParser { project_path }
    }

    /// The project directory this parser starts from.
    pub fn project_path(&self) -> (r: &String)
        ensures
            r@ == self.path_view(),
    {
        &self.project_path
    }
}

/// A parser for warehouse-native semantic-layer files; it takes the
/// file path per call and carries no state.
pub struct SnowflakeSemanticLayerParser;

impl SnowflakeSemanticLayerParser {
    pub fn new() -> Self {
        SnowflakeSemanticLayerParser
    }
}

impl Default for SnowflakeSemanticLayerParser {
    fn default() -> Self {
        Self::new()
    }
}

} // verus!

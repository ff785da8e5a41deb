//! The configuration graph: contexts and resource sets, and the rendered
//! artifacts a run produces.

use vstd::prelude::*;
use crate::values::ScopeModel;
use crate::values::ValueScope;
use crate::values::scope_model;

verus! {

/// A named, path-addressed group of template files with its own variable
/// scope; it may nest further resource sets.
#[derive(Debug, PartialEq)]
pub struct ResourceSet {
    /// Name of the resource set; unique among siblings. Usable for
    /// filtering during runs.
    pub name: String,
    /// Path to the file or directory holding this set's templates; during
    /// resolution it defaults to the value of `name` when left empty.
    pub path: String,
    /// Values overlaid on the inherited scope when rendering this set.
    pub values: ValueScope,
    /// Nested resource sets, rendered after this set's own files.
    pub children: Vec<ResourceSet>,
    /// Dotted path of the enclosing nodes, set during resolution and never
    /// authored by a user: a non-owning back-reference that lets a caller
    /// reconstruct the nesting path for filtering.
    pub parent: String,
}

/// The top-level named configuration: a global scope, the names of value
/// files merged into it, and a forest of resource sets.
#[derive(Debug, PartialEq)]
pub struct Context {
    /// The name of the kubectl context.
    pub name: String,
    /// Variables accessible to every resource set.
    pub global: ValueScope,
    /// Names of YAML or JSON files with extra variables that were merged
    /// into `global` during resolution.
    pub imports: Vec<String>,
    /// The top-level resource sets of this context.
    pub resource_sets: Vec<ResourceSet>,
}

/// One rendered template: the file it came from and its textual output.
#[derive(Debug, PartialEq)]
pub struct RenderedResource {
    pub file_name: String,
    pub rendered: String,
}

/// The flattened, ordered report of rendering one resource set tree.
#[derive(Debug, PartialEq)]
pub struct RenderedResourceSet {
    pub name: String,
    pub resources: Vec<RenderedResource>,
}

/// The mathematical model of a resource set.
pub struct ResourceSetModel {
    pub name: Seq<char>,
    pub path: Seq<char>,
    pub values: ScopeModel,
    pub children: Seq<ResourceSetModel>,
    pub parent: Seq<char>,
}

pub open spec fn resource_set_model(rs: ResourceSet) -> ResourceSetModel
    decreases rs,
{
    ResourceSetModel {
        name: rs.name@,
        path: rs.path@,
        values: scope_model(rs.values),
        children: resource_sets_model(rs.children@),
        parent: rs.parent@,
    }
}

pub open spec fn resource_sets_model(s: Seq<ResourceSet>) -> Seq<ResourceSetModel>
    decreases s,
{
    if s.len() == 0 {
        Seq::empty()
    } else {
        resource_sets_model(s.drop_last()).push(resource_set_model(s.last()))
    }
}

} // verus!

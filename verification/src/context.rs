//! Context resolution: merging imported value files into the global scope
//! and normalising every resource set of the tree (default paths, parent
//! back-references) before any rendering begins.

use vstd::prelude::*;
use crate::errors::Error;
use crate::types::Context;
use crate::types::ResourceSet;
use crate::types::ResourceSetModel;
use crate::types::resource_set_model;
use crate::types::resource_sets_model;
use crate::values::ScopeModel;
use crate::values::ValueScope;
use crate::values::merge;
use crate::values::merge_model;
use crate::values::scope_model;

verus! {

pub open spec fn scopes_model(s: Seq<ValueScope>) -> Seq<ScopeModel>
    decreases s,
{
    if s.len() == 0 {
        Seq::empty()
    } else {
        scopes_model(s.drop_last()).push(scope_model(s.last()))
    }
}

/// The global scope after the imported scopes merge onto it in listed
/// order: a later import overrides an earlier one, and every import
/// overrides the declared base.
pub open spec fn merge_all(base: ScopeModel, imports: Seq<ScopeModel>) -> ScopeModel
    decreases imports,
{
    if imports.len() == 0 {
        base
    } else {
        merge_model(merge_all(base, imports.drop_last()), imports.last())
    }
}

/// Merges each imported scope into `base` in listed order.
pub fn merge_imports(base: ValueScope, imports: Vec<ValueScope>) -> (r: ValueScope)
    ensures
        scope_model(r) == merge_all(scope_model(base), scopes_model(imports@)),
    decreases imports@.len(),
{
    let mut im = imports;
    let ghost before = scopes_model(im@);
    match im.pop() {
        None => base,
        Some(last) => {
            proof {
                assert(before.drop_last() =~= scopes_model(im@));
                assert(before.last() == scope_model(last));
            }
            let partial = merge_imports(base, im);
            merge(partial, last)
        },
    }
}

/// The dotted nesting path of a node whose enclosing path is `prefix`.
pub open spec fn dotted(prefix: Seq<char>, name: Seq<char>) -> Seq<char> {
    if prefix.len() == 0 {
        name
    } else {
        prefix + "."@ + name
    }
}

/// Resolution of one node: the effective path defaults to the node's name;
/// the parent back-reference becomes the enclosing dotted path; the
/// children resolve under this node's own dotted path. Values and order
/// are untouched.
pub open spec fn resolve_model(m: ResourceSetModel, prefix: Seq<char>) -> ResourceSetModel
    decreases m,
{
    ResourceSetModel {
        name: m.name,
        path: if m.path.len() == 0 {
            m.name
        } else {
            m.path
        },
        values: m.values,
        children: resolve_all_model(m.children, dotted(prefix, m.name)),
        parent: prefix,
    }
}

pub open spec fn resolve_all_model(ms: Seq<ResourceSetModel>, prefix: Seq<char>) -> Seq<
    ResourceSetModel,
>
    decreases ms,
{
    if ms.len() == 0 {
        Seq::empty()
    } else {
        resolve_all_model(ms.drop_last(), prefix).push(resolve_model(ms.last(), prefix))
    }
}

/// Size of a resource set tree, the termination measure of resolution.
pub open spec fn resource_set_size(m: ResourceSetModel) -> nat
    decreases m,
{
    1 + resource_sets_size(m.children)
}

pub open spec fn resource_sets_size(ms: Seq<ResourceSetModel>) -> nat
    decreases ms,
{
    if ms.len() == 0 {
        0
    } else {
        1 + resource_sets_size(ms.drop_last()) + resource_set_size(ms.last())
    }
}

/// Resolves one resource set under the given enclosing dotted path.
pub fn resolve_resource_set(rs: ResourceSet, prefix: &String) -> (r: ResourceSet)
    ensures
        resource_set_model(r) == resolve_model(resource_set_model(rs), prefix@),
    decreases resource_set_size(resource_set_model(rs)),
{
    let ResourceSet { name, path, values, children, parent: _ } = rs;
    let new_path = if path.as_str().is_empty() {
        name.clone()
    } else {
        path
    };
    let own_dotted = if prefix.as_str().is_empty() {
        name.clone()
    } else {
        let mut d = prefix.clone();
        d.append(".");
        d.append(name.as_str());
        d
    };
    let new_children = resolve_children(children, &own_dotted);
    ResourceSet {
        name,
        path: new_path,
        values,
        children: new_children,
        parent: prefix.clone(),
    }
}

/// Resolves each of a node's children in order, under the node's dotted path.
fn resolve_children(children: Vec<ResourceSet>, prefix: &String) -> (r: Vec<ResourceSet>)
    ensures
        resource_sets_model(r@) == resolve_all_model(resource_sets_model(children@), prefix@),
    decreases resource_sets_size(resource_sets_model(children@)),
{
    let mut cs = children;
    let ghost before = resource_sets_model(cs@);
    match cs.pop() {
        None => Vec::new(),
        Some(last) => {
            proof {
                assert(before.drop_last() =~= resource_sets_model(cs@));
                assert(before.last() == resource_set_model(last));
            }
            let mut front = resolve_children(cs, prefix);
            let ghost old_front = front@;
            let resolved = resolve_resource_set(last, prefix);
            front.push(resolved);
            proof {
                assert(front@.drop_last() =~= old_front);
                assert(front@.last() == resolved);
            }
            front
        },
    }
}

/// Resolves a deserialized raw context description into a ready `Context`:
/// the imported scopes merge into the global scope in listed order, every
/// resource set's path defaults to its name, and every parent
/// back-reference becomes the dotted nesting path (the context's name for
/// the top-level sets). Fails exactly when no resource sets are declared.
pub fn resolve_context(
    name: String,
    global: ValueScope,
    imports: Vec<String>,
    import_values: Vec<ValueScope>,
    resource_sets: Vec<ResourceSet>,
) -> (r: Result<Context, Error>)
    ensures
        match r {
            Ok(ctx) => {
                &&& resource_sets@.len() > 0
                &&& ctx.name@ == name@
                &&& scope_model(ctx.global) == merge_all(
                    scope_model(global),
                    scopes_model(import_values@),
                )
                &&& ctx.imports == imports
                &&& resource_sets_model(ctx.resource_sets@) == resolve_all_model(
                    resource_sets_model(resource_sets@),
                    name@,
                )
            },
            Err(e) => e is EmptyContext && resource_sets@.len() == 0,
        },
{
    if resource_sets.len() == 0 {
        return Err(Error::EmptyContext);
    }
    let global = merge_imports(global, import_values);
    let sets = resolve_children(resource_sets, &name);
    Ok(Context { name, global, imports, resource_sets: sets })
}

} // verus!

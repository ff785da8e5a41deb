//! The renderer: walks a resolved resource set tree, computes the
//! effective scope at each node by merging root to leaf, and renders every
//! non-default template file against it through the template engine.
//!
//! The work is split in two. `render_plan` is pure: it turns the tree into
//! an ordered list of render jobs — which file, which template text, which
//! variables — and its contract pins that list exactly. `run_jobs` then
//! hands each job to the template engine. The engine's output is *not* a
//! function of the job alone (its stdlib date filter can read the clock,
//! and iteration over a mapping follows the engine's own map order), so
//! nothing is assumed of it; the verified contracts state what holds of
//! every outcome, and the decision on each outcome is the verified
//! `resource_from_rendered`.

use vstd::prelude::*;
use vstd::string::StringExecFns;
use crate::errors::Error;
use crate::types::Context;
use crate::types::RenderedResource;
use crate::types::RenderedResourceSet;
use crate::types::ResourceSet;
use crate::values::ScopeModel;
use crate::values::ScopeValue;
use crate::values::ValueScope;
use crate::values::deep_copy_scope;
use crate::values::merge;
use crate::values::merge_model;
use crate::values::scope_model;

verus! {

/// A directly contained template file: its bare name and its contents.
#[derive(Debug, PartialEq)]
pub struct TemplateFile {
    pub name: String,
    pub contents: String,
}

/// What a resource set's path designates on disk, loaded by the I/O driver
/// around this engine: either the contents of the single file the path
/// points at, or the direct entries of the directory in enumeration order.
#[derive(Debug, PartialEq)]
pub enum PathContents {
    SingleFile(String),
    Directory(Vec<TemplateFile>),
}

/// The loaded files of a resource set tree: this node's own files, and one
/// child per nested resource set, aligned by position.
#[derive(Debug, PartialEq)]
pub struct NodeFiles {
    pub files: PathContents,
    pub children: Vec<NodeFiles>,
}

/// The loaded file tree is shaped like the resource set tree.
pub open spec fn files_match(rs: ResourceSet, nf: NodeFiles) -> bool
    decreases nf,
{
    children_match(rs.children@, nf.children@)
}

pub open spec fn children_match(cs: Seq<ResourceSet>, nfs: Seq<NodeFiles>) -> bool
    decreases nfs,
{
    &&& nfs.len() == cs.len()
    &&& (nfs.len() > 0 ==> children_match(cs.drop_last(), nfs.drop_last()) && files_match(
        cs.last(),
        nfs.last(),
    ))
}

pub proof fn lemma_children_match_index(cs: Seq<ResourceSet>, nfs: Seq<NodeFiles>, i: int)
    requires
        children_match(cs, nfs),
        0 <= i < cs.len(),
    ensures
        nfs.len() == cs.len(),
        files_match(cs[i], nfs[i]),
    decreases nfs.len(),
{
    if i == cs.len() - 1 {
        assert(cs.last() == cs[i]);
        assert(nfs.last() == nfs[i]);
    } else {
        lemma_children_match_index(cs.drop_last(), nfs.drop_last(), i);
        assert(cs.drop_last()[i] == cs[i]);
        assert(nfs.drop_last()[i] == nfs[i]);
    }
}

/// A shaped file tree hands each child of a node its own shaped file tree.
pub proof fn lemma_files_match_child(rs: ResourceSet, nf: NodeFiles, i: int)
    requires
        files_match(rs, nf),
        0 <= i < rs.children@.len(),
    ensures
        nf.children@.len() == rs.children@.len(),
        files_match(rs.children@[i], nf.children@[i]),
{
    lemma_children_match_index(rs.children@, nf.children@, i);
}

/// The reserved file names that carry default scope data, never templates.
pub open spec fn is_default_name(s: Seq<char>) -> bool {
    ||| s == "default.yml"@
    ||| s == "default.yaml"@
    ||| s == "default.json"@
}

/// The full name of a directory entry: directory path, a slash, file name.
pub open spec fn full_name(dir: Seq<char>, file: Seq<char>) -> Seq<char> {
    dir + "/"@ + file
}

/// One unit of template-engine work: a file to render, its template text,
/// and the exact variables it renders against.
#[derive(Debug, PartialEq)]
pub struct RenderJob {
    pub file_name: String,
    pub contents: String,
    pub scope: ValueScope,
}

/// The mathematical model of a render job.
pub struct JobModel {
    pub file_name: Seq<char>,
    pub contents: Seq<char>,
    pub scope: ScopeModel,
}

pub open spec fn job_model(j: RenderJob) -> JobModel {
    JobModel { file_name: j.file_name@, contents: j.contents@, scope: scope_model(j.scope) }
}

pub open spec fn jobs_model(s: Seq<RenderJob>) -> Seq<JobModel>
    decreases s,
{
    if s.len() == 0 {
        Seq::empty()
    } else {
        jobs_model(s.drop_last()).push(job_model(s.last()))
    }
}

pub proof fn lemma_jobs_model_index(s: Seq<RenderJob>)
    ensures
        jobs_model(s).len() == s.len(),
        forall|i: int| 0 <= i < s.len() ==> #[trigger] jobs_model(s)[i] == job_model(s[i]),
    decreases s.len(),
{
    if s.len() > 0 {
        lemma_jobs_model_index(s.drop_last());
        assert forall|i: int|
            0 <= i < s.len() implies #[trigger] jobs_model(s)[i] == job_model(s[i]) by {
            if i < s.len() - 1 {
                assert(s.drop_last()[i] == s[i]);
            } else {
                assert(s.last() == s[i]);
            }
        }
    }
}

/// Concatenating job lists concatenates their models.
pub proof fn lemma_jobs_model_concat(x: Seq<RenderJob>, y: Seq<RenderJob>)
    ensures
        jobs_model(x + y) == jobs_model(x) + jobs_model(y),
{
    lemma_jobs_model_index(x);
    lemma_jobs_model_index(y);
    lemma_jobs_model_index(x + y);
    assert(jobs_model(x + y) =~= jobs_model(x) + jobs_model(y));
}

/// The jobs a directory contributes, in entry order: every non-default
/// file against the effective scope; default-value files are skipped.
pub open spec fn dir_jobs(dir: Seq<char>, fs: Seq<TemplateFile>, eff: ScopeModel) -> Seq<JobModel>
    decreases fs,
{
    if fs.len() == 0 {
        Seq::empty()
    } else {
        let rest = dir_jobs(dir, fs.drop_last(), eff);
        let f = fs.last();
        if is_default_name(f.name@) {
            rest
        } else {
            rest.push(
                JobModel {
                    file_name: full_name(dir, f.name@),
                    contents: f.contents@,
                    scope: eff,
                },
            )
        }
    }
}

/// The jobs a node's own path contributes: a single file renders exactly
/// once under the path itself; a directory contributes `dir_jobs`.
pub open spec fn own_jobs(rs: ResourceSet, nf: NodeFiles, eff: ScopeModel) -> Seq<JobModel>
    decreases nf,
{
    match nf.files {
        PathContents::SingleFile(contents) => seq![
            JobModel { file_name: rs.path@, contents: contents@, scope: eff },
        ],
        PathContents::Directory(fs) => dir_jobs(rs.path@, fs@, eff),
    }
}

/// The full ordered plan of a node: its own files first, then each child's
/// plan in declaration order, every node against the scope merged from
/// root to leaf (closer to the leaf wins).
pub open spec fn tree_jobs(rs: ResourceSet, nf: NodeFiles, inherited: ScopeModel) -> Seq<JobModel>
    decreases nf,
{
    let eff = merge_model(inherited, scope_model(rs.values));
    own_jobs(rs, nf, eff) + children_jobs(rs.children@, nf.children@, eff)
}

pub open spec fn children_jobs(
    cs: Seq<ResourceSet>,
    nfs: Seq<NodeFiles>,
    inherited: ScopeModel,
) -> Seq<JobModel>
    decreases nfs,
{
    if nfs.len() == 0 || cs.len() == 0 {
        Seq::empty()
    } else {
        children_jobs(cs.drop_last(), nfs.drop_last(), inherited) + tree_jobs(
            cs.last(),
            nfs.last(),
            inherited,
        )
    }
}

/// Whether `f` is the file name of one of the jobs.
pub open spec fn names_a_job(jobs: Seq<JobModel>, f: Seq<char>) -> bool {
    exists|k: int| 0 <= k < jobs.len() && jobs[k].file_name == f
}

/// The report an accepted render must have: the set's own name, one
/// resource per planned job in plan order, each under the job's file name
/// and with output that is not empty.
pub open spec fn report_matches(
    out: RenderedResourceSet,
    rs: ResourceSet,
    nf: NodeFiles,
    inherited: ScopeModel,
) -> bool {
    let jobs = tree_jobs(rs, nf, inherited);
    &&& out.name@ == rs.name@
    &&& out.resources@.len() == jobs.len()
    &&& forall|i: int|
        0 <= i < jobs.len() ==> #[trigger] out.resources@[i].file_name@ == jobs[i].file_name
            && out.resources@[i].rendered@.len() > 0
}

/// Relies on serde_json's value constructors alone: rebuilds a value tree
/// one-for-one as a serde_json value, so that the template engine can
/// consume it as its globals.
#[verifier::external_body]
fn value_to_json(v: &ScopeValue) -> (r: serde_json::Value) {
    match v {
        ScopeValue::Null => serde_json::Value::Null,
        ScopeValue::Bool(b) => serde_json::Value::Bool(*b),
        ScopeValue::Int(i) => serde_json::Value::from(*i),
        ScopeValue::Text(s) => serde_json::Value::String(s.clone()),
        ScopeValue::Sequence(vs) => serde_json::Value::Array(vs.iter().map(value_to_json).collect()),
        ScopeValue::Mapping(m) => scope_to_json(m),
    }
}

/// Relies on serde_json's value constructors alone: rebuilds one scope
/// level one-for-one as a serde_json object. The JSON map sorts keys and
/// collapses a duplicate key to its last occurrence; a well-formed scope
/// has unique keys, and the engine looks variables up by name, so neither
/// changes what a template sees.
#[verifier::external_body]
fn scope_to_json(s: &ValueScope) -> (r: serde_json::Value) {
    serde_json::Value::Object(
        s.entries.iter().map(|e| (e.key.clone(), value_to_json(&e.value))).collect(),
    )
}

/// Relies on liquid's ParserBuilder::build (with the stdlib tags and
/// filters, no partials), Parser::parse and Template::render, for making
/// the call only: nothing is assumed of the outcome. The rendered text is
/// not a function of the template and the variables — the stdlib date
/// filter renders "now" as the clock's time, and iteration over a mapping
/// follows the engine's own map order — so no contract names it; callers
/// state what holds of every outcome. The variables cross into the engine
/// as the JSON tree `scope_to_json` builds, through liquid's to_object;
/// an engine failure comes back as the engine's own message, unaltered.
#[verifier::external_body]
fn render_template(text: &str, variables: &ValueScope) -> (r: Result<String, String>) {
    let globals = match liquid::to_object(&scope_to_json(variables)) {
        Ok(o) => o,
        Err(e) => return Err(e.to_string()),
    };
    let parser = match liquid::ParserBuilder::with_stdlib().build() {
        Ok(p) => p,
        Err(e) => return Err(e.to_string()),
    };
    let template = match parser.parse(text) {
        Ok(t) => t,
        Err(e) => return Err(e.to_string()),
    };
    template.render(&globals).map_err(|e| e.to_string())
}

/// Tells the reserved default-value file names, which hold scope data and
/// are never rendered, apart from template files.
pub fn is_default_file(file: &str) -> (r: bool)
    ensures
        r == is_default_name(file@),
{
    let f = String::from_str(file);
    f == String::from_str("default.yml") || f == String::from_str("default.yaml") || f
        == String::from_str("default.json")
}

/// Builds the full name of a directory entry.
fn join_path(dir: &String, file: &String) -> (r: String)
    ensures
        r@ == full_name(dir@, file@),
{
    let mut s = dir.clone();
    s.append("/");
    s.append(file.as_str());
    s
}

/// Decides what a rendering outcome means: empty output is the
/// `EmptyTemplate` error naming the file, anything else becomes a rendered
/// resource carrying the output unchanged.
pub fn resource_from_rendered(file_name: String, rendered: String) -> (r: Result<
    RenderedResource,
    Error,
>)
    ensures
        match r {
            Ok(res) => rendered@.len() > 0 && res.file_name@ == file_name@ && res.rendered@
                == rendered@,
            Err(e) => rendered@.len() == 0 && (e matches Error::EmptyTemplate(f) && f@
                == file_name@),
        },
{
    if rendered.as_str().is_empty() {
        Err(Error::EmptyTemplate(file_name))
    } else {
        Ok(RenderedResource { file_name, rendered })
    }
}

/// Renders one file against its scope. Whatever the engine does, any
/// error names this file: `Templating` carries the engine's message, and
/// `EmptyTemplate` comes exactly when the engine accepted the template
/// but produced no output.
fn template_file(scope: &ValueScope, file_name: String, contents: &str) -> (r: Result<
    RenderedResource,
    Error,
>)
    ensures
        match r {
            Ok(res) => res.file_name@ == file_name@ && res.rendered@.len() > 0,
            Err(e) => match e {
                Error::EmptyTemplate(f) => f@ == file_name@,
                Error::Templating { file_name: f, message: _ } => f@ == file_name@,
                _ => false,
            },
        },
{
    match render_template(contents, scope) {
        Ok(s) => resource_from_rendered(file_name, s),
        Err(m) => Err(Error::Templating { file_name, message: m }),
    }
}

/// Computes the render plan of a resource set tree: one job per renderable
/// file, in render order — the set's own files first (the single file its
/// path names, or the directory's non-default entries in enumeration
/// order), then each nested set's jobs in declaration order. Each job
/// carries the file's full name, its template text, and exactly the scope
/// inherited from the enclosing levels merged with the set's own values.
#[verifier::loop_isolation(false)]
pub fn render_plan(rs: &ResourceSet, files: &NodeFiles, inherited: &ValueScope) -> (r: Vec<
    RenderJob,
>)
    requires
        files_match(*rs, *files),
    ensures
        jobs_model(r@) == tree_jobs(*rs, *files, scope_model(*inherited)),
    decreases *files,
{
    let eff = merge(deep_copy_scope(inherited), deep_copy_scope(&rs.values));
    let ghost effm = scope_model(eff);
    let mut jobs: Vec<RenderJob> = Vec::new();
    match &files.files {
        PathContents::SingleFile(contents) => {
            jobs.push(
                RenderJob {
                    file_name: rs.path.clone(),
                    contents: contents.clone(),
                    scope: deep_copy_scope(&eff),
                },
            );
            proof {
                assert(jobs@.drop_last() =~= Seq::<RenderJob>::empty());
                assert(jobs_model(jobs@.drop_last()) =~= Seq::<JobModel>::empty());
                assert(jobs_model(jobs@) =~= own_jobs(*rs, *files, effm));
            }
        },
        PathContents::Directory(fs) => {
            let mut i: usize = 0;
            while i < fs.len()
                invariant
                    i <= fs@.len(),
                    jobs_model(jobs@) == dir_jobs(rs.path@, fs@.take(i as int), effm),
                decreases fs@.len() - i,
            {
                let f = &fs[i];
                let ghost old_jobs = jobs@;
                if !is_default_file(f.name.as_str()) {
                    jobs.push(
                        RenderJob {
                            file_name: join_path(&rs.path, &f.name),
                            contents: f.contents.clone(),
                            scope: deep_copy_scope(&eff),
                        },
                    );
                    proof {
                        assert(jobs@.drop_last() =~= old_jobs);
                    }
                }
                proof {
                    assert(fs@.take(i + 1).drop_last() =~= fs@.take(i as int));
                    assert(fs@.take(i + 1).last() == fs@[i as int]);
                }
                i += 1;
            }
            proof {
                assert(fs@.take(fs@.len() as int) =~= fs@);
            }
        },
    }
    proof {
        assert(jobs_model(jobs@) == own_jobs(*rs, *files, effm));
    }
    let ghost own = jobs_model(jobs@);
    let mut j: usize = 0;
    while j < rs.children.len()
        invariant
            j <= rs.children@.len(),
            jobs_model(jobs@) == own + children_jobs(
                rs.children@.take(j as int),
                files.children@.take(j as int),
                effm,
            ),
        decreases rs.children@.len() - j,
    {
        proof {
            lemma_files_match_child(*rs, *files, j as int);
        }
        let mut child_jobs = render_plan(&rs.children[j], &files.children[j], &eff);
        let ghost old_jobs = jobs@;
        let ghost child_seq = child_jobs@;
        jobs.append(&mut child_jobs);
        proof {
            assert(jobs@ == old_jobs + child_seq);
            lemma_jobs_model_concat(old_jobs, child_seq);
            assert(rs.children@.take(j + 1).drop_last() =~= rs.children@.take(j as int));
            assert(files.children@.take(j + 1).drop_last() =~= files.children@.take(j as int));
            assert(rs.children@.take(j + 1).last() == rs.children@[j as int]);
            assert(files.children@.take(j + 1).last() == files.children@[j as int]);
        }
        j += 1;
    }
    proof {
        assert(rs.children@.take(rs.children@.len() as int) =~= rs.children@);
        assert(files.children@.take(files.children@.len() as int) =~= files.children@);
    }
    jobs
}

/// Runs each job through the template engine in plan order, aborting on
/// the first failure. Success is owed when there is nothing to run; for
/// anything else the engine decides, and every error names the file of
/// one of the jobs.
#[verifier::loop_isolation(false)]
fn run_jobs(jobs: &Vec<RenderJob>) -> (r: Result<Vec<RenderedResource>, Error>)
    ensures
        match r {
            Ok(res) => res@.len() == jobs@.len() && (forall|i: int|
                0 <= i < jobs@.len() ==> #[trigger] res@[i].file_name@ == jobs@[i].file_name@
                    && res@[i].rendered@.len() > 0),
            Err(e) => {
                &&& jobs@.len() > 0
                &&& (e is Templating || e is EmptyTemplate)
                &&& (e matches Error::Templating { file_name: f, message: _ }
                    ==> names_a_job(jobs_model(jobs@), f@))
                &&& (e matches Error::EmptyTemplate(f) ==> names_a_job(jobs_model(jobs@), f@))
            },
        },
{
    proof {
        lemma_jobs_model_index(jobs@);
    }
    let mut res: Vec<RenderedResource> = Vec::new();
    let mut i: usize = 0;
    while i < jobs.len()
        invariant
            i <= jobs@.len(),
            res@.len() == i,
            forall|k: int|
                0 <= k < i ==> #[trigger] res@[k].file_name@ == jobs@[k].file_name@
                    && res@[k].rendered@.len() > 0,
        decreases jobs@.len() - i,
    {
        let job = &jobs[i];
        match template_file(&job.scope, job.file_name.clone(), job.contents.as_str()) {
            Ok(rr) => {
                res.push(rr);
            },
            Err(e) => {
                proof {
                    assert(jobs_model(jobs@)[i as int].file_name == jobs@[i as int].file_name@);
                }
                return Err(e);
            },
        }
        i += 1;
    }
    Ok(res)
}

/// Renders a resource set tree into one flattened report, running the
/// tree's render plan in order and aborting on the first failure. An
/// accepted render has exactly the plan's shape (`report_matches`); a
/// plan with no jobs always succeeds, with an empty report; any error is
/// the engine's rejection or an empty output, and names the file of one
/// of the plan's jobs.
pub fn template_resource_set(rs: &ResourceSet, files: &NodeFiles, inherited: &ValueScope) -> (r:
    Result<RenderedResourceSet, Error>)
    requires
        files_match(*rs, *files),
    ensures
        match r {
            Ok(out) => report_matches(out, *rs, *files, scope_model(*inherited)),
            Err(e) => {
                let jobs = tree_jobs(*rs, *files, scope_model(*inherited));
                &&& jobs.len() > 0
                &&& (e is Templating || e is EmptyTemplate)
                &&& (e matches Error::Templating { file_name: f, message: _ } ==> names_a_job(
                    jobs,
                    f@,
                ))
                &&& (e matches Error::EmptyTemplate(f) ==> names_a_job(jobs, f@))
            },
        },
{
    let jobs = render_plan(rs, files, inherited);
    proof {
        lemma_jobs_model_index(jobs@);
    }
    match run_jobs(&jobs) {
        Ok(res) => Ok(RenderedResourceSet { name: rs.name.clone(), resources: res }),
        Err(e) => Err(e),
    }
}

/// Renders every top-level resource set of a resolved context against the
/// context's global scope, one flattened report per set, in declaration
/// order. The first failure aborts the whole run; any error names the
/// file of a job of one of the sets' plans.
#[verifier::loop_isolation(false)]
pub fn render_context(ctx: &Context, files: &Vec<NodeFiles>) -> (r: Result<
    Vec<RenderedResourceSet>,
    Error,
>)
    requires
        children_match(ctx.resource_sets@, files@),
    ensures
        match r {
            Ok(outs) => outs@.len() == ctx.resource_sets@.len() && (forall|i: int|
                0 <= i < outs@.len() ==> report_matches(
                    #[trigger] outs@[i],
                    ctx.resource_sets@[i],
                    files@[i],
                    scope_model(ctx.global),
                )),
            Err(e) => {
                &&& (e is Templating || e is EmptyTemplate)
                &&& (e matches Error::Templating { file_name: f, message: _ } ==> exists|i: int|
                    0 <= i < ctx.resource_sets@.len() && names_a_job(
                        #[trigger] tree_jobs(
                            ctx.resource_sets@[i],
                            files@[i],
                            scope_model(ctx.global),
                        ),
                        f@,
                    ))
                &&& (e matches Error::EmptyTemplate(f) ==> exists|i: int|
                    0 <= i < ctx.resource_sets@.len() && names_a_job(
                        #[trigger] tree_jobs(
                            ctx.resource_sets@[i],
                            files@[i],
                            scope_model(ctx.global),
                        ),
                        f@,
                    ))
            },
        },
{
    let mut outs: Vec<RenderedResourceSet> = Vec::new();
    let mut j: usize = 0;
    while j < ctx.resource_sets.len()
        invariant
            j <= ctx.resource_sets@.len(),
            outs@.len() == j,
            forall|i: int|
                0 <= i < j ==> report_matches(
                    #[trigger] outs@[i],
                    ctx.resource_sets@[i],
                    files@[i],
                    scope_model(ctx.global),
                ),
        decreases ctx.resource_sets@.len() - j,
    {
        proof {
            lemma_children_match_index(ctx.resource_sets@, files@, j as int);
        }
        match template_resource_set(&ctx.resource_sets[j], &files[j], &ctx.global) {
            Ok(out) => {
                outs.push(out);
            },
            Err(e) => {
                return Err(e);
            },
        }
        j += 1;
    }
    Ok(outs)
}

} // verus!

//! The per-verb operation surface: each function turns its arguments into
//! the plan of engine steps that the request calls for.

use vstd::prelude::*;
use vstd::string::StringExecFns;
use crate::plan::{enqueue_step, flag_steps, request_plan, Plan, Step, StepModel, Verb};

verus! {

/// The destination view of a request: the string when one is given, the
/// empty sequence for verbs that take none.
pub open spec fn dest_view(dest: Option<Seq<char>>) -> Seq<char> {
    match dest {
        Some(d) => d,
        None => Seq::<char>::empty(),
    }
}

fn opt_string(dest: &Option<String>) -> (r: String)
    ensures
        r@ == dest_view(dest.deep_view()),
{
    match dest {
        Some(d) => d.clone(),
        None => String::new(),
    }
}

/// Build the plan of one request: the optional flag step, one enqueue step
/// per source in order, and the final perform step.
pub fn build_plan(
    verb: Verb,
    sources: &Vec<String>,
    dest: &Option<String>,
    flags: Option<u32>,
) -> (r: Plan)
    ensures
        r@ == request_plan(verb, sources.deep_view(), dest_view(dest.deep_view()), flags),
{
    let ghost dv = dest_view(dest.deep_view());
    let ghost fl = flag_steps(flags);
    let mut steps: Vec<Step> = Vec::new();
    match flags {
        Some(f) => {
            steps.push(Step::SetFlags { mask: f });
        },
        None => {},
    }
    let mut i: usize = 0;
    while i < sources.len()
        invariant
            i <= sources.len(),
            dv == dest_view(dest.deep_view()),
            fl == flag_steps(flags),
            steps@.len() == fl.len() + i,
            forall|k: int| 0 <= k < fl.len() ==> steps@[k]@ == fl[k],
            forall|k: int|
                fl.len() <= k < steps@.len() ==> steps@[k]@ == enqueue_step(
                    verb,
                    sources@[k - fl.len()]@,
                    dv,
                ),
        decreases sources.len() - i,
    {
        let src = sources[i].clone();
        let step = match verb {
            Verb::Copy => Step::CopyItem { src, dest: opt_string(dest) },
            Verb::Move => Step::MoveItem { src, dest: opt_string(dest) },
            Verb::Delete => Step::DeleteItem { target: src },
            Verb::Rename => Step::RenameItem { target: src, new_name: opt_string(dest) },
            Verb::CreateFolder => Step::NewItem {
                root: src,
                name: opt_string(dest),
                directory: true,
            },
            Verb::CreateFile => Step::NewItem {
                root: src,
                name: opt_string(dest),
                directory: false,
            },
        };
        proof {
            assert(step@ == enqueue_step(verb, sources@[i as int]@, dv));
        }
        steps.push(step);
        i += 1;
    }
    steps.push(Step::Perform);
    proof {
        let plan = request_plan(verb, sources.deep_view(), dv, flags);
        assert(sources.deep_view().len() == sources@.len());
        assert forall|k: int| 0 <= k < steps@.len() implies steps.deep_view()[k] == plan[k] by {
            assert(steps.deep_view()[k] == steps@[k]@);
            if fl.len() <= k < steps@.len() - 1 {
                assert(sources.deep_view()[k - fl.len()] == sources@[k - fl.len()]@);
            }
        }
        assert(steps.deep_view() =~~= plan);
    }
    Plan { steps }
}

/// One request: a verb, its ordered source paths, the optional destination
/// or new-name string, and the optional flag bitmask. A request is
/// immutable once constructed and gives rise to exactly one plan, run on
/// one engine instance of its own.
#[derive(Clone, Debug, PartialEq, Eq)]
pub struct OperationRequest {
    pub verb: Verb,
    pub sources: Vec<String>,
    pub dest: Option<String>,
    pub flags: Option<u32>,
}

impl OperationRequest {
    /// The plan of this request.
    pub fn plan(&self) -> (r: Plan)
        ensures
            r@ == request_plan(
                self.verb,
                self.sources.deep_view(),
                dest_view(self.dest.deep_view()),
                self.flags,
            ),
    {
        build_plan(self.verb, &self.sources, &self.dest, self.flags)
    }
}

fn to_string_vec(v: &Vec<&str>) -> (r: Vec<String>)
    ensures
        r.deep_view() == v.deep_view(),
{
    let mut r: Vec<String> = Vec::new();
    let mut i: usize = 0;
    while i < v.len()
        invariant
            i <= v.len(),
            r@.len() == i,
            forall|k: int| 0 <= k < i ==> r@[k]@ == v@[k]@,
        decreases v.len() - i,
    {
        r.push(String::from_str(v[i]));
        i += 1;
    }
    proof {
        assert forall|k: int| 0 <= k < r@.len() implies r.deep_view()[k] == v.deep_view()[k] by {
            assert(r.deep_view()[k] == r@[k]@);
            assert(v.deep_view()[k] == v@[k]@);
        }
        assert(r.deep_view() =~~= v.deep_view());
    }
    r
}

fn single_source(s: &str) -> (r: Vec<String>)
    ensures
        r.deep_view() =~~= seq![s@],
{
    let mut r: Vec<String> = Vec::new();
    r.push(String::from_str(s));
    proof {
        assert(r.deep_view() =~~= seq![s@]);
    }
    r
}

/// Plan the copy of several items into the folder at `dest`.
pub fn copy_files(src: Vec<&str>, dest: &str, flags: Option<u32>) -> (r: Plan)
    ensures
        r@ == request_plan(Verb::Copy, src.deep_view(), dest@, flags),
{
    let sources = to_string_vec(&src);
    build_plan(Verb::Copy, &sources, &Some(String::from_str(dest)), flags)
}

/// Plan the copy of one item into the folder at `dest`.
pub fn copy_file(src: &str, dest: &str, flags: Option<u32>) -> (r: Plan)
    ensures
        r@ == request_plan(Verb::Copy, seq![src@], dest@, flags),
{
    let sources = single_source(src);
    build_plan(Verb::Copy, &sources, &Some(String::from_str(dest)), flags)
}

/// Plan the deletion of one item.
pub fn delete_file(target: &str, flags: Option<u32>) -> (r: Plan)
    ensures
        r@ == request_plan(Verb::Delete, seq![target@], Seq::<char>::empty(), flags),
{
    let sources = single_source(target);
    build_plan(Verb::Delete, &sources, &None, flags)
}

/// Plan the deletion of several items.
pub fn delete_files(targets: Vec<&str>, flags: Option<u32>) -> (r: Plan)
    ensures
        r@ == request_plan(Verb::Delete, targets.deep_view(), Seq::<char>::empty(), flags),
{
    let sources = to_string_vec(&targets);
    build_plan(Verb::Delete, &sources, &None, flags)
}

/// Plan the rename of one item to the plain name `dest`.
pub fn rename_file(src: &str, dest: &str, flags: Option<u32>) -> (r: Plan)
    ensures
        r@ == request_plan(Verb::Rename, seq![src@], dest@, flags),
{
    let sources = single_source(src);
    build_plan(Verb::Rename, &sources, &Some(String::from_str(dest)), flags)
}

/// Plan the rename of several items, each to the same plain name `new_name`.
pub fn rename_files(targets: Vec<&str>, new_name: &str, flags: Option<u32>) -> (r: Plan)
    ensures
        r@ == request_plan(Verb::Rename, targets.deep_view(), new_name@, flags),
{
    let sources = to_string_vec(&targets);
    build_plan(Verb::Rename, &sources, &Some(String::from_str(new_name)), flags)
}

/// Plan the move of one item into the folder at `dest`.
pub fn move_file(src: &str, dest: &str, flags: Option<u32>) -> (r: Plan)
    ensures
        r@ == request_plan(Verb::Move, seq![src@], dest@, flags),
{
    let sources = single_source(src);
    build_plan(Verb::Move, &sources, &Some(String::from_str(dest)), flags)
}

/// Plan the move of several items into the folder at `dest`.
pub fn move_files(src: Vec<&str>, dest: &str, flags: Option<u32>) -> (r: Plan)
    ensures
        r@ == request_plan(Verb::Move, src.deep_view(), dest@, flags),
{
    let sources = to_string_vec(&src);
    build_plan(Verb::Move, &sources, &Some(String::from_str(dest)), flags)
}

/// Plan the creation of a folder called `name` under the folder at `target`.
pub fn create_folder(target: &str, name: &str, flags: Option<u32>) -> (r: Plan)
    ensures
        r@ == request_plan(Verb::CreateFolder, seq![target@], name@, flags),
{
    let sources = single_source(target);
    build_plan(Verb::CreateFolder, &sources, &Some(String::from_str(name)), flags)
}

/// Plan the creation of a regular file called `name` under the folder at
/// `target`.
pub fn create_file(target: &str, name: &str, flags: Option<u32>) -> (r: Plan)
    ensures
        r@ == request_plan(Verb::CreateFile, seq![target@], name@, flags),
{
    let sources = single_source(target);
    build_plan(Verb::CreateFile, &sources, &Some(String::from_str(name)), flags)
}

} // verus!

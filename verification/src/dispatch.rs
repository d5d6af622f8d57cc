//! Verb selection: how one command with a comma-separated target string is
//! turned into a plan.
//!
//! The selection is purely structural. When a destination is supplied, the
//! copy, move, rename and create families apply: one comma-separated path
//! selects the single-item form, two or more select the batch form, and a
//! create verb takes a single root only. Without a destination only the
//! delete family applies. A combination with no applicable form plans
//! nothing.

use vstd::prelude::*;
use crate::flags::{spec_translate, translate};
use crate::ops::{
    copy_file, copy_files, create_file, create_folder, delete_file, delete_files, move_file,
    move_files, rename_file, rename_files,
};
use crate::plan::{count_enqueued, lemma_plan_shape, request_plan, Plan, StepModel, Verb};
use crate::text::{spec_split, split_on};

verus! {

/// The plan a command selects, or `None` when no form of the verb applies
/// to the given shape of arguments.
pub open spec fn spec_apply(
    verb: Verb,
    target: Seq<char>,
    dest: Option<Seq<char>>,
    flags: Option<u32>,
) -> Option<Seq<StepModel>> {
    let ts = spec_split(target, ',');
    match dest {
        Some(d) => match verb {
            Verb::Copy => Some(request_plan(verb, ts, d, flags)),
            Verb::Move => Some(request_plan(verb, ts, d, flags)),
            Verb::Rename => Some(request_plan(verb, ts, d, flags)),
            Verb::CreateFolder => if ts.len() == 1 {
                Some(request_plan(verb, ts, d, flags))
            } else {
                None
            },
            Verb::CreateFile => if ts.len() == 1 {
                Some(request_plan(verb, ts, d, flags))
            } else {
                None
            },
            Verb::Delete => None,
        },
        None => match verb {
            Verb::Delete => Some(request_plan(verb, ts, Seq::<char>::empty(), flags)),
            _ => None,
        },
    }
}

/// The step sequence of an optional plan.
pub open spec fn plan_view(r: Option<Plan>) -> Option<Seq<StepModel>> {
    match r {
        Some(p) => Some(p@),
        None => None,
    }
}

fn as_str_vec<'a>(v: &'a Vec<String>) -> (r: Vec<&'a str>)
    ensures
        r.deep_view() == v.deep_view(),
{
    let mut r: Vec<&'a str> = Vec::new();
    let mut i: usize = 0;
    while i < v.len()
        invariant
            i <= v.len(),
            r@.len() == i,
            forall|k: int| 0 <= k < i ==> r@[k]@ == v@[k]@,
        decreases v.len() - i,
    {
        r.push(v[i].as_str());
        i += 1;
    }
    proof {
        assert forall|k: int| 0 <= k < r@.len() implies r.deep_view()[k] == v.deep_view()[k] by {
            assert(r.deep_view()[k] == r@[k]@);
            assert(v.deep_view()[k] == v@[k]@);
        }
        assert(r.deep_view() =~~= v.deep_view());
    }
    r
}

/// Select and build the plan of one command: split the target string on
/// commas, then pick the verb form that fits the path count and the
/// presence of a destination.
pub fn apply_command(verb: Verb, target: &str, dest: Option<&str>, flags: Option<u32>) -> (r:
    Option<Plan>)
    ensures
        plan_view(r) == spec_apply(verb, target@, dest.deep_view(), flags),
{
    let targets = split_on(target, ',');
    let ghost ts = spec_split(target@, ',');
    proof {
        assert(targets.deep_view().len() == targets@.len());
    }
    match dest {
        Some(d) => {
            let single = targets.len() == 1;
            proof {
                if single {
                    assert(targets.deep_view()[0] == targets@[0]@);
                    assert(seq![targets@[0]@] =~~= ts);
                }
            }
            match verb {
                Verb::Copy => {
                    if single {
                        Some(copy_file(targets[0].as_str(), d, flags))
                    } else {
                        Some(copy_files(as_str_vec(&targets), d, flags))
                    }
                },
                Verb::Move => {
                    if single {
                        Some(move_file(targets[0].as_str(), d, flags))
                    } else {
                        Some(move_files(as_str_vec(&targets), d, flags))
                    }
                },
                Verb::Rename => {
                    if single {
                        Some(rename_file(targets[0].as_str(), d, flags))
                    } else {
                        Some(rename_files(as_str_vec(&targets), d, flags))
                    }
                },
                Verb::CreateFolder => {
                    if single {
                        Some(create_folder(targets[0].as_str(), d, flags))
                    } else {
                        None
                    }
                },
                Verb::CreateFile => {
                    if single {
                        Some(create_file(targets[0].as_str(), d, flags))
                    } else {
                        None
                    }
                },
                Verb::Delete => None,
            }
        },
        None => {
            match verb {
                Verb::Delete => {
                    if targets.len() == 1 {
                        proof {
                            assert(targets.deep_view()[0] == targets@[0]@);
                            assert(seq![targets@[0]@] =~~= ts);
                        }
                        Some(delete_file(targets[0].as_str(), flags))
                    } else {
                        Some(delete_files(as_str_vec(&targets), flags))
                    }
                },
                _ => None,
            }
        },
    }
}

/// Plan one command given the raw `|`-delimited flag string: translate the
/// flags, then select the verb form.
pub fn plan_command(verb: Verb, target: &str, dest: Option<&str>, flag_string: Option<&str>) -> (
    r: Option<Plan>)
    ensures
        plan_view(r) == spec_apply(
            verb,
            target@,
            dest.deep_view(),
            match flag_string {
                Some(s) => Some(spec_translate(s@)),
                None => None::<u32>,
            },
        ),
{
    let flags = translate(flag_string);
    apply_command(verb, target, dest, flags)
}

/// With exactly one comma-separated path, the single-item form is selected:
/// the command plans the same steps as the one-item function for its verb,
/// and the plan enqueues exactly one operation.
pub proof fn lemma_single_path_single_form(
    verb: Verb,
    target: Seq<char>,
    d: Seq<char>,
    flags: Option<u32>,
)
    requires
        verb is Copy || verb is Move || verb is Rename || verb is CreateFolder
            || verb is CreateFile,
        spec_split(target, ',').len() == 1,
    ensures
        spec_apply(verb, target, Some(d), flags) == Some(
            request_plan(verb, seq![spec_split(target, ',')[0]], d, flags),
        ),
        count_enqueued(request_plan(verb, spec_split(target, ','), d, flags)) == 1,
{
    let ts = spec_split(target, ',');
    assert(seq![ts[0]] =~~= ts);
    lemma_plan_shape(verb, ts, d, flags);
}

/// With two or more comma-separated paths, the batch form is selected for
/// the verbs that have one: the plan enqueues one operation per path, in
/// order; the create verbs, which have no batch form, plan nothing.
pub proof fn lemma_multi_path_batch_form(
    verb: Verb,
    target: Seq<char>,
    d: Seq<char>,
    flags: Option<u32>,
)
    requires
        spec_split(target, ',').len() >= 2,
    ensures
        verb is Copy || verb is Move || verb is Rename ==> spec_apply(verb, target, Some(d), flags)
            == Some(request_plan(verb, spec_split(target, ','), d, flags)) && count_enqueued(
            request_plan(verb, spec_split(target, ','), d, flags),
        ) == spec_split(target, ',').len(),
        verb is CreateFolder || verb is CreateFile ==> spec_apply(verb, target, Some(d), flags)
            is None,
{
    lemma_plan_shape(verb, spec_split(target, ','), d, flags);
}

} // verus!

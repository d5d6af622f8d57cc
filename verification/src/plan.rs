//! Plans: the sequence of engine steps that one request gives rise to.
//!
//! A plan lists, in order, every call the surrounding program must make on
//! one freshly acquired engine instance: an optional flag-configuration
//! step, one enqueue step per target, and a final perform step. The first
//! failing step aborts the request; the engine mutates nothing before the
//! perform step runs.

use vstd::prelude::*;

verus! {

/// The operation a request asks for.
#[derive(Clone, Copy, Debug, PartialEq, Eq, Structural)]
pub enum Verb {
    Copy,
    Move,
    Delete,
    Rename,
    CreateFolder,
    CreateFile,
}

/// One engine step, as executable data.
#[derive(Clone, Debug, PartialEq, Eq)]
pub enum Step {
    /// Configure the engine instance with a flag bitmask.
    SetFlags { mask: u32 },
    /// Enqueue a copy of the item at `src` into the folder at `dest`.
    CopyItem { src: String, dest: String },
    /// Enqueue a move of the item at `src` into the folder at `dest`.
    MoveItem { src: String, dest: String },
    /// Enqueue the deletion of the item at `target`.
    DeleteItem { target: String },
    /// Enqueue a rename of the item at `target` to the plain name `new_name`.
    RenameItem { target: String, new_name: String },
    /// Enqueue the creation of a file or folder called `name` under `root`.
    NewItem { root: String, name: String, directory: bool },
    /// Perform every enqueued operation as one atomic call.
    Perform,
}

/// The mathematical image of one engine step.
#[verifier::ext_equal]
pub enum StepModel {
    SetFlags { mask: u32 },
    CopyItem { src: Seq<char>, dest: Seq<char> },
    MoveItem { src: Seq<char>, dest: Seq<char> },
    DeleteItem { target: Seq<char> },
    RenameItem { target: Seq<char>, new_name: Seq<char> },
    NewItem { root: Seq<char>, name: Seq<char>, directory: bool },
    Perform,
}

impl View for Step {
    type V = StepModel;

    open spec fn view(&self) -> StepModel {
        match self {
            Step::SetFlags { mask } => StepModel::SetFlags { mask: *mask },
            Step::CopyItem { src, dest } => StepModel::CopyItem { src: src@, dest: dest@ },
            Step::MoveItem { src, dest } => StepModel::MoveItem { src: src@, dest: dest@ },
            Step::DeleteItem { target } => StepModel::DeleteItem { target: target@ },
            Step::RenameItem { target, new_name } => StepModel::RenameItem {
                target: target@,
                new_name: new_name@,
            },
            Step::NewItem { root, name, directory } => StepModel::NewItem {
                root: root@,
                name: name@,
                directory: *directory,
            },
            Step::Perform => StepModel::Perform,
        }
    }
}

impl DeepView for Step {
    type V = StepModel;

    open spec fn deep_view(&self) -> StepModel {
        self.view()
    }
}

/// The steps one request gives rise to, to be applied in order to one
/// engine instance acquired for that request alone.
#[derive(Clone, Debug, PartialEq, Eq)]
pub struct Plan {
    pub steps: Vec<Step>,
}

impl View for Plan {
    type V = Seq<StepModel>;

    open spec fn view(&self) -> Seq<StepModel> {
        self.steps.deep_view()
    }
}

/// The configuration prefix of a plan: one flag step when a bitmask is
/// present, nothing at all when it is absent.
pub open spec fn flag_steps(flags: Option<u32>) -> Seq<StepModel> {
    match flags {
        Some(f) => seq![StepModel::SetFlags { mask: f }],
        None => Seq::<StepModel>::empty(),
    }
}

/// The enqueue step for one source under the given verb. For a delete the
/// destination is ignored; for a rename it is the plain new name; for a
/// creation it is the name of the new item under the source root.
pub open spec fn enqueue_step(verb: Verb, src: Seq<char>, dest: Seq<char>) -> StepModel {
    match verb {
        Verb::Copy => StepModel::CopyItem { src, dest },
        Verb::Move => StepModel::MoveItem { src, dest },
        Verb::Delete => StepModel::DeleteItem { target: src },
        Verb::Rename => StepModel::RenameItem { target: src, new_name: dest },
        Verb::CreateFolder => StepModel::NewItem { root: src, name: dest, directory: true },
        Verb::CreateFile => StepModel::NewItem { root: src, name: dest, directory: false },
    }
}

/// The enqueue steps of a request: one per source, in source order.
pub open spec fn enqueue_steps(verb: Verb, sources: Seq<Seq<char>>, dest: Seq<char>) -> Seq<
    StepModel,
> {
    Seq::new(sources.len(), |i: int| enqueue_step(verb, sources[i], dest))
}

/// The whole plan of a request: configuration, one enqueue step per source
/// in order, and one final perform step.
pub open spec fn request_plan(
    verb: Verb,
    sources: Seq<Seq<char>>,
    dest: Seq<char>,
    flags: Option<u32>,
) -> Seq<StepModel> {
    flag_steps(flags).add(enqueue_steps(verb, sources, dest)).add(seq![StepModel::Perform])
}

/// Whether a step enqueues an operation, as opposed to configuring the
/// engine or performing what was enqueued.
pub open spec fn is_enqueue(s: StepModel) -> bool {
    !(s is SetFlags) && !(s is Perform)
}

/// How many steps of a plan enqueue an operation.
pub open spec fn count_enqueued(p: Seq<StepModel>) -> int
    decreases p.len(),
{
    if p.len() <= 0 {
        0
    } else {
        count_enqueued(p.drop_last()) + if is_enqueue(p.last()) {
            1int
        } else {
            0int
        }
    }
}

/// How many steps of a plan perform the enqueued operations.
pub open spec fn count_performs(p: Seq<StepModel>) -> int
    decreases p.len(),
{
    if p.len() <= 0 {
        0
    } else {
        count_performs(p.drop_last()) + if p.last() is Perform {
            1int
        } else {
            0int
        }
    }
}

proof fn lemma_count_performs_add(a: Seq<StepModel>, b: Seq<StepModel>)
    ensures
        count_performs(a.add(b)) == count_performs(a) + count_performs(b),
    decreases b.len(),
{
    if b.len() == 0 {
        assert(a.add(b) =~~= a);
    } else {
        lemma_count_performs_add(a, b.drop_last());
        assert(a.add(b).drop_last() =~~= a.add(b.drop_last()));
        assert(a.add(b).last() == b.last());
    }
}

proof fn lemma_count_performs_enqueue_steps(verb: Verb, sources: Seq<Seq<char>>, dest: Seq<char>)
    ensures
        count_performs(enqueue_steps(verb, sources, dest)) == 0,
    decreases sources.len(),
{
    if sources.len() == 0 {
    } else {
        lemma_count_performs_enqueue_steps(verb, sources.drop_last(), dest);
        let es = enqueue_steps(verb, sources, dest);
        assert(es.drop_last() =~~= enqueue_steps(verb, sources.drop_last(), dest));
        assert(!(es.last() is Perform));
    }
}

proof fn lemma_count_enqueued_add(a: Seq<StepModel>, b: Seq<StepModel>)
    ensures
        count_enqueued(a.add(b)) == count_enqueued(a) + count_enqueued(b),
    decreases b.len(),
{
    if b.len() == 0 {
        assert(a.add(b) =~~= a);
    } else {
        lemma_count_enqueued_add(a, b.drop_last());
        assert(a.add(b).drop_last() =~~= a.add(b.drop_last()));
        assert(a.add(b).last() == b.last());
    }
}

proof fn lemma_count_enqueue_steps(verb: Verb, sources: Seq<Seq<char>>, dest: Seq<char>)
    ensures
        count_enqueued(enqueue_steps(verb, sources, dest)) == sources.len(),
    decreases sources.len(),
{
    if sources.len() == 0 {
    } else {
        lemma_count_enqueue_steps(verb, sources.drop_last(), dest);
        let es = enqueue_steps(verb, sources, dest);
        assert(es.drop_last() =~~= enqueue_steps(verb, sources.drop_last(), dest));
        assert(is_enqueue(es.last()));
    }
}

/// A plan performs exactly once, last, and enqueues exactly one operation
/// per source, whatever the verb and whether or not flags are present.
pub proof fn lemma_plan_shape(
    verb: Verb,
    sources: Seq<Seq<char>>,
    dest: Seq<char>,
    flags: Option<u32>,
)
    ensures
        count_enqueued(request_plan(verb, sources, dest, flags)) == sources.len(),
        count_performs(request_plan(verb, sources, dest, flags)) == 1,
        request_plan(verb, sources, dest, flags).last() == StepModel::Perform,
        request_plan(verb, sources, dest, flags).len() == flag_steps(flags).len() + sources.len()
            + 1,
{
    let fl = flag_steps(flags);
    let es = enqueue_steps(verb, sources, dest);
    lemma_count_enqueued_add(fl.add(es), seq![StepModel::Perform]);
    lemma_count_enqueued_add(fl, es);
    lemma_count_enqueue_steps(verb, sources, dest);
    lemma_count_performs_add(fl.add(es), seq![StepModel::Perform]);
    lemma_count_performs_add(fl, es);
    lemma_count_performs_enqueue_steps(verb, sources, dest);
    assert(count_performs(Seq::<StepModel>::empty()) == 0);
    assert(count_performs(seq![StepModel::Perform]) == 1) by {
        assert(count_performs(Seq::<StepModel>::empty()) == 0);
        assert(seq![StepModel::Perform].drop_last() =~~= Seq::<StepModel>::empty());
        assert(seq![StepModel::Perform].last() == StepModel::Perform);
    }
    assert(count_performs(fl) == 0) by {
        assert(count_performs(Seq::<StepModel>::empty()) == 0);
        if flags is Some {
            assert(fl.drop_last() =~~= Seq::<StepModel>::empty());
            assert(!(fl.last() is Perform));
        }
    }
    assert(count_enqueued(Seq::<StepModel>::empty()) == 0);
    assert(count_enqueued(seq![StepModel::Perform]) == 0) by {
        assert(count_enqueued(Seq::<StepModel>::empty()) == 0);
        assert(seq![StepModel::Perform].drop_last() =~~= Seq::<StepModel>::empty());
        assert(seq![StepModel::Perform].last() == StepModel::Perform);
    }
    assert(count_enqueued(fl) == 0) by {
        assert(count_enqueued(Seq::<StepModel>::empty()) == 0);
        if flags is Some {
            assert(fl.drop_last() =~~= Seq::<StepModel>::empty());
            assert(!is_enqueue(fl.last()));
        }
    }
}

/// Without a bitmask the plan holds no configuration step at all; with one,
/// the configuration step comes first and nowhere else.
pub proof fn lemma_flag_configuration(
    verb: Verb,
    sources: Seq<Seq<char>>,
    dest: Seq<char>,
    flags: Option<u32>,
)
    ensures
        flags is None ==> forall|k: int|
            0 <= k < request_plan(verb, sources, dest, None).len() ==> !(request_plan(
                verb,
                sources,
                dest,
                None,
            )[k] is SetFlags),
        flags matches Some(f) ==> request_plan(verb, sources, dest, flags)[0] == (
        StepModel::SetFlags { mask: f }),
        forall|k: int|
            flag_steps(flags).len() <= k < request_plan(verb, sources, dest, flags).len() ==> !(
            request_plan(verb, sources, dest, flags)[k] is SetFlags),
{
    let p = request_plan(verb, sources, dest, flags);
    let fl = flag_steps(flags);
    assert forall|k: int| fl.len() <= k < p.len() implies !(p[k] is SetFlags) by {
        if k < fl.len() + sources.len() {
            assert(p[k] == enqueue_steps(verb, sources, dest)[k - fl.len()]);
        } else {
            assert(p[k] == StepModel::Perform);
        }
    }
}

} // verus!

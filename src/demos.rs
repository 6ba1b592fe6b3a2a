use vstd::prelude::*;
use crate::future::MyFuture;
use crate::join::join;
use crate::runtime::run_to_completion;
use crate::script::{as_ints, trace, Script, Step};

verus! {

/// The first branch of the cooperative example: 30, 10 and 20 ms of work,
/// with a yield point after each.
pub open spec fn branch_a_with_yields() -> Seq<Step> {
    seq![Step::Work(30), Step::Yield, Step::Work(10), Step::Yield, Step::Work(20), Step::Yield]
}

/// The second branch of the cooperative example: 75, 10, 15 and 350 ms of
/// work, with a yield point after each.
pub open spec fn branch_b_with_yields() -> Seq<Step> {
    seq![
        Step::Work(75),
        Step::Yield,
        Step::Work(10),
        Step::Yield,
        Step::Work(15),
        Step::Yield,
        Step::Work(350),
        Step::Yield,
    ]
}

/// The first branch without its yield points.
pub open spec fn branch_a_without_yields() -> Seq<Step> {
    seq![Step::Work(30), Step::Work(10), Step::Work(20)]
}

/// The second branch without its yield points.
pub open spec fn branch_b_without_yields() -> Seq<Step> {
    seq![Step::Work(75), Step::Work(10), Step::Work(15), Step::Work(350)]
}

/// Runs two branches side by side under one join and returns, for each work
/// step of each branch, the advance during which it ran. Each branch finishes
/// within one advance per step, so the run always finishes.
fn run_branches(a: Vec<Step>, b: Vec<Step>) -> (r: Option<(Vec<u64>, Vec<u64>)>)
    requires
        a@.len() < 64,
        b@.len() < 64,
    ensures
        r matches Some((ta, tb)) && as_ints(ta@) == trace(a@) && as_ints(tb@) == trace(b@),
{
    let mut root = join(Script::new(a), Script::new(b));
    let ghost start = root;
    let r = run_to_completion(&mut root, 64);
    proof {
        start.lemma_successor_parts(&root);
        start.first().lemma_successor_keeps_steps(&root.first());
        start.second().lemma_successor_keeps_steps(&root.second());
        if r is None {
            root.lemma_unfinished_members();
            if root.first().outcome() is None {
                root.first().lemma_unfinished_advances();
            }
            if root.second().outcome() is None {
                root.second().lemma_unfinished_advances();
            }
            assert(false);
        }
        if r is Some {
            root.lemma_outcome_parts();
            root.first().lemma_outcome_is_trace();
            root.second().lemma_outcome_is_trace();
        }
    }
    r
}

/// The cooperative example: both branches yield after each piece of work, so
/// their work interleaves.
pub fn yield_now_example() -> (r: Option<(Vec<u64>, Vec<u64>)>)
    ensures
        r matches Some((ta, tb)) && as_ints(ta@) == trace(branch_a_with_yields()) && as_ints(
            tb@,
        ) == trace(branch_b_with_yields()),
{
    let a = vec![Step::Work(30), Step::Yield, Step::Work(10), Step::Yield, Step::Work(20), Step::Yield];
    let b = vec![
        Step::Work(75),
        Step::Yield,
        Step::Work(10),
        Step::Yield,
        Step::Work(15),
        Step::Yield,
        Step::Work(350),
        Step::Yield,
    ];
    assert(a@ =~= branch_a_with_yields());
    assert(b@ =~= branch_b_with_yields());
    run_branches(a, b)
}

/// The same branches without yield points: the first runs to its end before
/// the second starts.
pub fn bad_example_no_yield_control_runtime() -> (r: Option<(Vec<u64>, Vec<u64>)>)
    ensures
        r matches Some((ta, tb)) && as_ints(ta@) == trace(branch_a_without_yields())
            && as_ints(tb@) == trace(branch_b_without_yields()),
{
    let a = vec![Step::Work(30), Step::Work(10), Step::Work(20)];
    let b = vec![Step::Work(75), Step::Work(10), Step::Work(15), Step::Work(350)];
    assert(a@ =~= branch_a_without_yields());
    assert(b@ =~= branch_b_without_yields());
    run_branches(a, b)
}

/// Runs the cooperative example.
pub fn yield_control_runtime() -> (r: Option<(Vec<u64>, Vec<u64>)>)
    ensures
        r matches Some((ta, tb)) && as_ints(ta@) == trace(branch_a_with_yields()) && as_ints(
            tb@,
        ) == trace(branch_b_with_yields()),
{
    yield_now_example()
}

} // verus!

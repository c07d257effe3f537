use vstd::prelude::*;

use crate::intent::Intent;
use crate::menu::{nav_step, nav_wf, BoundaryPolicy, Screen};
use crate::selection::stored_index;

verus! {

/// The stack and the selection store after a whole sequence of intents has
/// run through the navigation state machine, one [`nav_step`] per intent.
pub open spec fn run_nav(
    screens: Seq<Screen>,
    stack: Seq<usize>,
    sel: Map<u64, usize>,
    policy: BoundaryPolicy,
    intents: Seq<Intent>,
) -> (Seq<usize>, Map<u64, usize>)
    decreases intents.len(),
{
    if intents.len() == 0 {
        (stack, sel)
    } else {
        let o = nav_step(screens, stack, sel, policy, intents[0]);
        run_nav(screens, o.stack, o.sel, policy, intents.drop_first())
    }
}

pub open spec fn up_down_only(intents: Seq<Intent>) -> bool {
    forall|i: int|
        0 <= i < intents.len() ==> ((#[trigger] intents[i]) == Intent::Up || intents[i]
            == Intent::Down)
}

pub open spec fn back_only(intents: Seq<Intent>) -> bool {
    forall|i: int| 0 <= i < intents.len() ==> (#[trigger] intents[i]) == Intent::Back
}

/// Law: under any sequence of `Up` and `Down` intents, and under either
/// boundary policy, the stack does not move and the selected row of the
/// current screen stays inside `[0, item_count - 1]`. Instantiated on
/// every prefix of a sequence, it says the row never leaves the screen's
/// bounds.
pub proof fn lemma_up_down_keeps_index_in_bounds(
    screens: Seq<Screen>,
    stack: Seq<usize>,
    sel: Map<u64, usize>,
    policy: BoundaryPolicy,
    intents: Seq<Intent>,
)
    requires
        nav_wf(screens, stack),
        up_down_only(intents),
        screens[stack.last() as int].items@.len() > 0,
        stored_index(sel, screens[stack.last() as int].id) < screens[stack.last() as int].items@.len(),
    ensures
        run_nav(screens, stack, sel, policy, intents).0 == stack,
        stored_index(
            run_nav(screens, stack, sel, policy, intents).1,
            screens[stack.last() as int].id,
        ) < screens[stack.last() as int].items@.len(),
    decreases intents.len(),
{
    if intents.len() > 0 {
        let o = nav_step(screens, stack, sel, policy, intents[0]);
        lemma_up_down_keeps_index_in_bounds(screens, stack, o.sel, policy, intents.drop_first());
    }
}

/// Law: `Back` on a single-screen stack is a no-op, however often it is
/// repeated: navigation alone never empties the stack, and the selection
/// store is left untouched.
pub proof fn lemma_back_on_root_is_noop(
    screens: Seq<Screen>,
    stack: Seq<usize>,
    sel: Map<u64, usize>,
    policy: BoundaryPolicy,
    intents: Seq<Intent>,
)
    requires
        nav_wf(screens, stack),
        back_only(intents),
        stack.len() == 1,
    ensures
        run_nav(screens, stack, sel, policy, intents).0 == stack,
        run_nav(screens, stack, sel, policy, intents).1 == sel,
    decreases intents.len(),
{
    if intents.len() > 0 {
        let o = nav_step(screens, stack, sel, policy, intents[0]);
        lemma_back_on_root_is_noop(screens, o.stack, o.sel, policy, intents.drop_first());
    }
}

} // verus!

use vstd::prelude::*;

use crate::intent::Intent;
use crate::selection::{stored_index, SelectionStore};

verus! {

/// One selectable row of a screen: it either triggers an action, handed to
/// the host as an opaque action code, or pushes the child screen stored at
/// the given arena slot.
#[derive(Clone, Copy, Debug, PartialEq, Eq, Structural)]
pub enum MenuItem {
    Action(u64),
    Submenu(usize),
}

/// One level of the menu hierarchy: its identifier and its ordered list of
/// selectable items. Screens live in an arena and reference each other by
/// arena slot, so nested menus need no owned nesting.
#[derive(Debug)]
pub struct Screen {
    pub id: u64,
    pub items: Vec<MenuItem>,
}

/// What `Up` at the first row and `Down` at the last row do: stay put, or
/// wrap around to the other end. The choice is named here rather than
/// hard-coded; either way a boundary move never fails.
#[derive(Clone, Copy, Debug, PartialEq, Eq, Structural)]
pub enum BoundaryPolicy {
    Clamp,
    Wrap,
}

/// The abstract state of a [`MenuNav`]: the screen arena, the stack of
/// active screens as arena slots (root first, current screen last), the
/// boundary policy, and the two redraw flags.
pub ghost struct MenuNavView {
    pub screens: Seq<Screen>,
    pub stack: Seq<usize>,
    pub policy: BoundaryPolicy,
    pub redraw_queued: bool,
    pub initial_render_done: bool,
}

/// Every item that pushes a child names a slot inside the arena.
pub open spec fn screens_wf(screens: Seq<Screen>) -> bool {
    forall|i: int, j: int|
        0 <= i < screens.len() && 0 <= j < screens[i].items@.len() ==> match #[trigger] screens[i].items@[j] {
            MenuItem::Submenu(k) => k < screens.len(),
            MenuItem::Action(_) => true,
        }
}

/// A well-formed navigation state: the stack is never empty, every stack
/// entry names a slot inside the arena, and the arena itself is closed.
pub open spec fn nav_wf(screens: Seq<Screen>, stack: Seq<usize>) -> bool {
    &&& stack.len() >= 1
    &&& forall|i: int| 0 <= i < stack.len() ==> (#[trigger] stack[i]) < screens.len()
    &&& screens_wf(screens)
}

/// The row of `s` the user is on, as consumed: the stored row when it is in
/// bounds, else the last row. A stale stored row (the screen shrank since it
/// was written) is re-clamped here, not in the store. Meaningful only when
/// the screen has items.
pub open spec fn consumed_index(sel: Map<u64, usize>, s: Screen) -> int {
    let st: int = stored_index(sel, s.id) as int;
    if st < s.items@.len() {
        st
    } else {
        s.items@.len() - 1
    }
}

/// One up or down move over `count` rows. Inside the screen the row moves
/// by one; at a boundary the policy decides whether it stays put or wraps
/// to the other end.
pub open spec fn step_index(cur: int, count: int, down: bool, policy: BoundaryPolicy) -> int {
    if down {
        if cur + 1 < count {
            cur + 1
        } else if policy == BoundaryPolicy::Wrap {
            0
        } else {
            cur
        }
    } else {
        if cur > 0 {
            cur - 1
        } else if policy == BoundaryPolicy::Wrap {
            count - 1
        } else {
            cur
        }
    }
}

/// What one intent does to a navigation state.
pub ghost struct NavOutcome {
    pub stack: Seq<usize>,
    pub sel: Map<u64, usize>,
    pub action: Option<u64>,
    pub changed: bool,
}

/// One up or down move on the top screen: the new row is written back to
/// the selection store; `changed` says whether the visible row moved. A
/// screen without items is left untouched.
pub open spec fn move_step(
    stack: Seq<usize>,
    sel: Map<u64, usize>,
    top: Screen,
    down: bool,
    policy: BoundaryPolicy,
) -> NavOutcome {
    let count: int = top.items@.len() as int;
    if count == 0 {
        NavOutcome { stack: stack, sel: sel, action: None, changed: false }
    } else {
        let cur: int = consumed_index(sel, top);
        let nw: int = step_index(cur, count, down, policy);
        NavOutcome {
            stack: stack,
            sel: sel.insert(top.id, nw as usize),
            action: None,
            changed: nw != cur,
        }
    }
}

/// The navigation state machine's transition: what one intent, applied to
/// the top of the stack, does to the stack and the selection store, which
/// action code it hands to the caller, and whether the visible state
/// changed (the redraw coordinator must then be signalled).
///
/// `Up`/`Down` move the current row, with the boundary policy deciding
/// what a move at the screen's ends does.
/// `Select` resolves the current row: an action item is returned to the
/// caller with nothing mutated, a submenu item pushes its screen, whose
/// selection is whatever the store already holds for it. `Back` pops the
/// top screen, except on the root screen, where it is a no-op: navigation
/// alone never empties the stack.
pub open spec fn nav_step(
    screens: Seq<Screen>,
    stack: Seq<usize>,
    sel: Map<u64, usize>,
    policy: BoundaryPolicy,
    intent: Intent,
) -> NavOutcome {
    let top: Screen = screens[stack.last() as int];
    match intent {
        Intent::Up => move_step(stack, sel, top, false, policy),
        Intent::Down => move_step(stack, sel, top, true, policy),
        Intent::Select => {
            if top.items@.len() == 0 {
                NavOutcome { stack: stack, sel: sel, action: None, changed: false }
            } else {
                match top.items@[consumed_index(sel, top)] {
                    MenuItem::Action(a) => NavOutcome {
                        stack: stack,
                        sel: sel,
                        action: Some(a),
                        changed: false,
                    },
                    MenuItem::Submenu(k) => NavOutcome {
                        stack: stack.push(k),
                        sel: sel,
                        action: None,
                        changed: true,
                    },
                }
            }
        },
        Intent::Back => {
            if stack.len() > 1 {
                NavOutcome { stack: stack.drop_last(), sel: sel, action: None, changed: true }
            } else {
                NavOutcome { stack: stack, sel: sel, action: None, changed: false }
            }
        },
    }
}

/// The stack after popping down to the topmost screen whose identifier is
/// `target`, keeping that screen as the new top. Empty when no screen on
/// the stack matches.
pub open spec fn popped_to(screens: Seq<Screen>, stack: Seq<usize>, target: u64) -> Seq<usize>
    decreases stack.len(),
{
    if stack.len() == 0 {
        stack
    } else if screens[stack.last() as int].id == target {
        stack
    } else {
        popped_to(screens, stack.drop_last(), target)
    }
}

proof fn lemma_popped_to_found(screens: Seq<Screen>, stack: Seq<usize>, target: u64, i: int)
    requires
        1 <= i <= stack.len(),
        screens[stack[i - 1] as int].id == target,
        forall|j: int| i <= j < stack.len() ==> screens[(#[trigger] stack[j]) as int].id != target,
    ensures
        popped_to(screens, stack, target) == stack.take(i),
    decreases stack.len(),
{
    if i == stack.len() {
        assert(stack.take(i) =~= stack);
    } else {
        assert(screens[stack[stack.len() - 1] as int].id != target);
        lemma_popped_to_found(screens, stack.drop_last(), target, i);
        assert(stack.drop_last().take(i) =~= stack.take(i));
    }
}

proof fn lemma_popped_to_absent(screens: Seq<Screen>, stack: Seq<usize>, target: u64)
    requires
        forall|j: int| 0 <= j < stack.len() ==> screens[(#[trigger] stack[j]) as int].id != target,
    ensures
        popped_to(screens, stack, target).len() == 0,
    decreases stack.len(),
{
    if stack.len() > 0 {
        lemma_popped_to_absent(screens, stack.drop_last(), target);
    }
}

/// The navigation state machine: the arena of screens, the stack of active
/// screens, and the redraw coordinator's two flags. The selected row of
/// each screen lives outside, in a [`SelectionStore`], so it persists when
/// a screen leaves and re-enters the stack.
pub struct MenuNav {
    screens: Vec<Screen>,
    stack: Vec<usize>,
    policy: BoundaryPolicy,
    redraw_queued: bool,
    initial_render_done: bool,
}

impl View for MenuNav {
    type V = MenuNavView;

    closed spec fn view(&self) -> MenuNavView {
        MenuNavView {
            screens: self.screens@,
            stack: self.stack@,
            policy: self.policy,
            redraw_queued: self.redraw_queued,
            initial_render_done: self.initial_render_done,
        }
    }
}

impl MenuNav {
    pub open spec fn wf(self) -> bool {
        nav_wf(self@.screens, self@.stack)
    }

    /// A fresh navigation state over the arena `screens`, showing the
    /// screen at slot `root` and moving under the given boundary policy.
    /// Nothing has been rendered yet, so the first tick redraws even
    /// without an external signal.
    pub fn new(screens: Vec<Screen>, root: usize, policy: BoundaryPolicy) -> (r: MenuNav)
        requires
            root < screens@.len(),
            screens_wf(screens@),
        ensures
            r.wf(),
            r@.screens == screens@,
            r@.stack == seq![root],
            r@.policy == policy,
            r@.redraw_queued == false,
            r@.initial_render_done == false,
    {
        let mut stack: Vec<usize> = Vec::new();
        stack.push(root);
        proof {
            assert(stack@ =~= seq![root]);
        }
        MenuNav { screens, stack, policy, redraw_queued: false, initial_render_done: false }
    }

    /// How many screens are active: 1 means the root screen alone.
    pub fn depth(&self) -> (d: usize)
        ensures
            d == self@.stack.len(),
    {
        self.stack.len()
    }

    /// The identifier of the screen the user is interacting with.
    pub fn top_id(&self) -> (id: u64)
        requires
            self.wf(),
        ensures
            id == self@.screens[self@.stack.last() as int].id,
    {
        let t: usize = self.stack[self.stack.len() - 1];
        self.screens[t].id
    }

    /// How many rows the screen the user is interacting with has.
    pub fn top_item_count(&self) -> (n: usize)
        requires
            self.wf(),
        ensures
            n == self@.screens[self@.stack.last() as int].items@.len(),
    {
        let t: usize = self.stack[self.stack.len() - 1];
        self.screens[t].items.len()
    }

    /// The row of the current screen a renderer should highlight: the
    /// stored row re-clamped to the screen's bounds, or 0 on a screen
    /// without items.
    pub fn current_row(&self, sel: &SelectionStore) -> (r: usize)
        requires
            self.wf(),
            sel.wf(),
        ensures
            r == ({
                let top = self@.screens[self@.stack.last() as int];
                if top.items@.len() == 0 {
                    0
                } else {
                    consumed_index(sel@, top)
                }
            }),
    {
        let t: usize = self.stack[self.stack.len() - 1];
        let count: usize = self.screens[t].items.len();
        if count == 0 {
            return 0;
        }
        let stored: usize = sel.get(self.screens[t].id);
        if stored < count {
            stored
        } else {
            count - 1
        }
    }

    /// Applies one intent to the top of the stack, as [`nav_step`] states:
    /// the returned action code, if any, is handed to the host's action
    /// sink; a transition that changes visible state queues a redraw.
    pub fn apply_intent(&mut self, intent: Intent, sel: &mut SelectionStore) -> (action: Option<
        u64,
    >)
        requires
            old(self).wf(),
            old(sel).wf(),
        ensures
            final(self).wf(),
            final(sel).wf(),
            ({
                let o = nav_step(
                    old(self)@.screens,
                    old(self)@.stack,
                    old(sel)@,
                    old(self)@.policy,
                    intent,
                );
                &&& final(self)@.screens == old(self)@.screens
                &&& final(self)@.stack == o.stack
                &&& final(sel)@ == o.sel
                &&& action == o.action
                &&& final(self)@.policy == old(self)@.policy
                &&& final(self)@.redraw_queued == (old(self)@.redraw_queued || o.changed)
                &&& final(self)@.initial_render_done == old(self)@.initial_render_done
            }),
    {
        let t: usize = self.stack[self.stack.len() - 1];
        let count: usize = self.screens[t].items.len();
        let id: u64 = self.screens[t].id;
        match intent {
            Intent::Up => {
                if count == 0 {
                    return None;
                }
                let stored: usize = sel.get(id);
                let cur: usize = if stored < count {
                    stored
                } else {
                    count - 1
                };
                let nw: usize = if cur > 0 {
                    cur - 1
                } else if matches!(self.policy, BoundaryPolicy::Wrap) {
                    count - 1
                } else {
                    cur
                };
                sel.set(id, nw);
                self.redraw_queued = self.redraw_queued || nw != cur;
                None
            },
            Intent::Down => {
                if count == 0 {
                    return None;
                }
                let stored: usize = sel.get(id);
                let cur: usize = if stored < count {
                    stored
                } else {
                    count - 1
                };
                let nw: usize = if cur + 1 < count {
                    cur + 1
                } else if matches!(self.policy, BoundaryPolicy::Wrap) {
                    0
                } else {
                    cur
                };
                sel.set(id, nw);
                self.redraw_queued = self.redraw_queued || nw != cur;
                None
            },
            Intent::Select => {
                if count == 0 {
                    return None;
                }
                let stored: usize = sel.get(id);
                let cur: usize = if stored < count {
                    stored
                } else {
                    count - 1
                };
                let item: MenuItem = self.screens[t].items[cur];
                match item {
                    MenuItem::Action(a) => Some(a),
                    MenuItem::Submenu(k) => {
                        self.stack.push(k);
                        self.redraw_queued = true;
                        None
                    },
                }
            },
            Intent::Back => {
                if self.stack.len() > 1 {
                    let _ = self.stack.pop();
                    self.redraw_queued = true;
                }
                None
            },
        }
    }

    /// Jump-to-selection: pops the stack down to the topmost screen whose
    /// identifier is `target`, which becomes the new top, discarding every
    /// deeper screen. When no screen on the stack matches, the stack is
    /// left as it is. Used by pointer interaction to jump to an item of an
    /// ancestor screen in one press.
    pub fn pop_to_selection(&mut self, target: u64)
        requires
            old(self).wf(),
        ensures
            final(self).wf(),
            final(self)@.screens == old(self)@.screens,
            final(self)@.policy == old(self)@.policy,
            final(self)@.initial_render_done == old(self)@.initial_render_done,
            final(self)@.stack == ({
                let popped = popped_to(old(self)@.screens, old(self)@.stack, target);
                if popped.len() == 0 {
                    old(self)@.stack
                } else {
                    popped
                }
            }),
            final(self)@.redraw_queued == (old(self)@.redraw_queued || final(self)@.stack
                != old(self)@.stack),
    {
        let mut i: usize = self.stack.len();
        while i > 0
            invariant
                i <= self.stack@.len(),
                self.stack@ == old(self).stack@,
                self.screens@ == old(self).screens@,
                self.policy == old(self).policy,
                self.redraw_queued == old(self).redraw_queued,
                self.initial_render_done == old(self).initial_render_done,
                self.wf(),
                forall|j: int|
                    i <= j < self.stack@.len() ==> self.screens@[(#[trigger] self.stack@[j]) as int].id
                        != target,
            decreases i,
        {
            let idx: usize = self.stack[i - 1];
            if self.screens[idx].id == target {
                proof {
                    lemma_popped_to_found(self.screens@, self.stack@, target, i as int);
                }
                if i < self.stack.len() {
                    self.stack.truncate(i);
                    self.redraw_queued = true;
                    proof {
                        assert(self.stack@.len() != old(self).stack@.len());
                    }
                } else {
                    proof {
                        assert(self.stack@.take(i as int) =~= self.stack@);
                    }
                }
                return;
            }
            i = i - 1;
        }
        proof {
            lemma_popped_to_absent(self.screens@, self.stack@, target);
        }
    }

    /// One pointer press on a rendered item of the screen `target`, row
    /// `row`: jumps the stack to that screen, records the pressed row in
    /// the store, resolves it as one synthesized `Select`, and signals a
    /// redraw — an ancestor jump, a selection update and an activation in
    /// one press. Press handling always ends with a queued redraw: the
    /// press may have moved the highlighted row even when the stack and
    /// the resolved item did not change.
    pub fn pointer_press(&mut self, target: u64, row: usize, sel: &mut SelectionStore) -> (action:
        Option<u64>)
        requires
            old(self).wf(),
            old(sel).wf(),
        ensures
            final(self).wf(),
            final(sel).wf(),
            ({
                let popped = popped_to(old(self)@.screens, old(self)@.stack, target);
                let stack1 = if popped.len() == 0 {
                    old(self)@.stack
                } else {
                    popped
                };
                let o = nav_step(
                    old(self)@.screens,
                    stack1,
                    old(sel)@.insert(target, row),
                    old(self)@.policy,
                    Intent::Select,
                );
                &&& final(self)@.screens == old(self)@.screens
                &&& final(self)@.stack == o.stack
                &&& final(sel)@ == o.sel
                &&& action == o.action
                &&& final(self)@.policy == old(self)@.policy
                &&& final(self)@.initial_render_done == old(self)@.initial_render_done
                &&& final(self)@.redraw_queued == true
            }),
    {
        self.pop_to_selection(target);
        sel.set(target, row);
        let action: Option<u64> = self.apply_intent(Intent::Select, sel);
        self.signal_redraw();
        action
    }

    /// Queues an externally signalled redraw for the coming tick.
    pub fn signal_redraw(&mut self)
        ensures
            final(self)@.screens == old(self)@.screens,
            final(self)@.stack == old(self)@.stack,
            final(self)@.policy == old(self)@.policy,
            final(self)@.redraw_queued == true,
            final(self)@.initial_render_done == old(self)@.initial_render_done,
    {
        self.redraw_queued = true;
    }

    /// Decides, once per tick, whether the visual tree must be torn down
    /// and rebuilt: on a queued signal, or unconditionally on the first
    /// tick of the menu's life. Both the queued signal and the first-tick
    /// allowance are consumed.
    pub fn take_redraw(&mut self) -> (redraw: bool)
        ensures
            redraw == (old(self)@.redraw_queued || !old(self)@.initial_render_done),
            final(self)@.screens == old(self)@.screens,
            final(self)@.stack == old(self)@.stack,
            final(self)@.policy == old(self)@.policy,
            final(self)@.redraw_queued == false,
            final(self)@.initial_render_done == true,
    {
        let r: bool = self.redraw_queued || !self.initial_render_done;
        self.redraw_queued = false;
        self.initial_render_done = true;
        r
    }
}

} // verus!

//! Several independent pane layouts, one of them current.
use crate::layout::LayoutManager;
use crate::text::{decimal, decimal_string};
use vstd::prelude::*;

verus! {

/// How many workspaces there can be at most.
pub const MAX_WORKSPACES: usize = 9;

/// The index a switch to `index` goes to: `index`, but at most the last allowed one.
pub open spec fn switch_target(index: usize) -> usize {
    if index < MAX_WORKSPACES - 1 {
        index
    } else {
        (MAX_WORKSPACES - 1) as usize
    }
}

/// How many workspaces there are after switching to `index` when there were `count`:
/// the missing ones up to the target are created.
pub open spec fn count_after_switch(count: nat, index: usize) -> nat {
    if count > switch_target(index) {
        count
    } else {
        (switch_target(index) + 1) as nat
    }
}

/// How many workspaces `next` cycles through when there are `count`: at least two, at
/// most the maximum.
pub open spec fn cycle_len(count: nat) -> nat {
    if count < 2 {
        2
    } else if count > MAX_WORKSPACES {
        MAX_WORKSPACES as nat
    } else {
        count
    }
}

/// The index `next` switches to.
pub open spec fn next_index(current: usize, count: nat) -> usize {
    ((current + 1) % (cycle_len(count) as int)) as usize
}

/// The index `prev` switches to.
pub open spec fn prev_index(current: usize, count: nat) -> usize {
    if current == 0 {
        (count - 1) as usize
    } else {
        (current - 1) as usize
    }
}

/// The label of a workspace tab: its number (counted from 1), in brackets when it is
/// the current one.
pub open spec fn tab_label(number: nat, active: bool) -> Seq<char> {
    if active {
        seq![' ', '['] + decimal(number) + seq![']', ' ']
    } else {
        seq![' ', ' '] + decimal(number) + seq![' ', ' ']
    }
}

/// One tab of the workspace bar.
pub struct WorkspaceTab {
    pub label: String,
    pub active: bool,
}

fn tab_label_string(number: u64, active: bool) -> (label: String)
    ensures
        label@ == tab_label(number as nat, active),
{
    let digit = decimal_string(number);
    let mut label = if active { String::from_str(" [") } else { String::from_str("  ") };
    label.append(digit.as_str());
    if active {
        label.append("] ");
    } else {
        label.append("  ");
    }
    proof {
        reveal_strlit(" [");
        reveal_strlit("] ");
        reveal_strlit("  ");
    }
    assert(label@ =~= tab_label(number as nat, active));
    label
}

pub struct WorkspaceManager {
    workspaces: Vec<LayoutManager>,
    pub current: usize,
}

impl WorkspaceManager {
    /// The layouts of the workspaces, in order.
    pub closed spec fn layouts(&self) -> Seq<LayoutManager> {
        self.workspaces@
    }

    /// The index of the current workspace.
    pub closed spec fn current_index(&self) -> usize {
        self.current
    }

    /// There is at least one workspace and at most the maximum, and the current one is
    /// one of them.
    pub open spec fn wf(&self) -> bool {
        &&& 1 <= self.layouts().len() <= MAX_WORKSPACES
        &&& self.current_index() < self.layouts().len()
    }

    /// Whether `self` is `old` after a switch to `index`: the target is current, the
    /// existing workspaces are kept as they were, and those created are fresh.
    pub open spec fn switched_from(&self, old: WorkspaceManager, index: usize) -> bool {
        &&& self.current_index() == switch_target(index)
        &&& self.layouts().len() == count_after_switch(old.layouts().len(), index)
        &&& forall|i: int| 0 <= i < old.layouts().len() ==> #[trigger] self.layouts()[i] == old.layouts()[i]
        &&& forall|i: int|
            old.layouts().len() <= i < self.layouts().len() ==> (#[trigger] self.layouts()[i]).is_fresh()
    }

    /// One workspace with a fresh layout, current.
    pub fn new() -> (wm: WorkspaceManager)
        ensures
            wm.wf(),
            wm.layouts().len() == 1,
            wm.layouts()[0].is_fresh(),
            wm.current_index() == 0,
    {
        WorkspaceManager { workspaces: vec![LayoutManager::new()], current: 0 }
    }

    /// The layout of the current workspace, to change it in place.
    pub fn current_layout(&mut self) -> (lm: &mut LayoutManager)
        requires
            old(self).current_index() < old(self).layouts().len(),
        ensures
            *lm == old(self).layouts()[old(self).current_index() as int],
            final(self).current_index() == old(self).current_index(),
            final(self).layouts() == old(self).layouts().update(
                old(self).current_index() as int,
                *final(lm),
            ),
            old(self).wf() ==> final(self).wf(),
    {
        &mut self.workspaces[self.current]
    }

    /// Switches to workspace `index` (counted from 0), at most the last allowed one,
    /// creating the workspaces that are missing up to it.
    pub fn switch_to(&mut self, index: usize)
        ensures
            final(self).switched_from(*old(self), index),
            final(self).layouts().len() >= old(self).layouts().len(),
            old(self).wf() ==> final(self).wf(),
    {
        let target = if index < MAX_WORKSPACES - 1 { index } else { MAX_WORKSPACES - 1 };
        while self.workspaces.len() <= target
            invariant
                target == switch_target(index),
                self.current == old(self).current,
                self.workspaces.len() >= old(self).workspaces.len(),
                self.workspaces.len() <= count_after_switch(old(self).workspaces@.len(), index),
                forall|i: int| 0 <= i < old(self).workspaces.len() ==> #[trigger] self.workspaces@[i] == old(self).workspaces@[i],
                forall|i: int|
                    old(self).workspaces.len() <= i < self.workspaces.len() ==> (#[trigger] self.workspaces@[i]).is_fresh(),
            decreases target + 1 - self.workspaces.len(),
        {
            self.workspaces.push(LayoutManager::new());
        }
        self.current = target;
    }

    /// Switches to the next workspace, cycling through at least two and at most the
    /// maximum.
    pub fn next(&mut self)
        requires
            old(self).current_index() < usize::MAX,
        ensures
            final(self).switched_from(
                *old(self),
                next_index(old(self).current_index(), old(self).layouts().len()),
            ),
            final(self).layouts().len() >= old(self).layouts().len(),
            old(self).wf() ==> final(self).wf(),
    {
        let len = self.workspaces.len();
        let cycle = if len < 2 { 2 } else if len > MAX_WORKSPACES { MAX_WORKSPACES } else { len };
        self.switch_to((self.current + 1) % cycle);
    }

    /// Switches to the previous workspace; from the first one, to the last one.
    pub fn prev(&mut self)
        requires
            old(self).layouts().len() >= 1,
        ensures
            final(self).switched_from(
                *old(self),
                prev_index(old(self).current_index(), old(self).layouts().len()),
            ),
            final(self).layouts().len() >= old(self).layouts().len(),
            old(self).wf() ==> final(self).wf(),
    {
        if self.current == 0 {
            self.switch_to(self.workspaces.len() - 1);
        } else {
            self.switch_to(self.current - 1);
        }
    }

    /// There are no more workspaces than a `usize` counts.
    pub proof fn lemma_count_fits(&self)
        ensures
            self.layouts().len() <= usize::MAX,
    {
        assert(self.workspaces@.len() == self.workspaces.len());
    }

    /// The tabs of the workspace bar, one per workspace in order, the current one
    /// marked: " [n] " for it, "  n  " for the others.
    pub fn tabs(&self) -> (tabs: Vec<WorkspaceTab>)
        ensures
            tabs.len() == self.layouts().len(),
            forall|i: int|
                0 <= i < tabs.len() ==> {
                    &&& (#[trigger] tabs@[i]).active == (i == self.current_index())
                    &&& tabs@[i].label@ == tab_label((i + 1) as nat, i == self.current_index())
                },
    {
        let mut tabs: Vec<WorkspaceTab> = Vec::new();
        let mut i: usize = 0;
        while i < self.workspaces.len()
            invariant
                i <= self.workspaces.len(),
                tabs.len() == i,
                forall|k: int|
                    0 <= k < tabs.len() ==> {
                        &&& (#[trigger] tabs@[k]).active == (k == self.current_index())
                        &&& tabs@[k].label@ == tab_label((k + 1) as nat, k == self.current_index())
                    },
            decreases self.workspaces.len() - i,
        {
            let active = i == self.current;
            tabs.push(WorkspaceTab { label: tab_label_string((i + 1) as u64, active), active });
            i = i + 1;
        }
        tabs
    }

    /// How many workspaces there are.
    pub fn count(&self) -> (n: usize)
        ensures
            n == self.layouts().len(),
    {
        self.workspaces.len()
    }

    /// Whether the current workspace is one of the workspaces (`current` is a public
    /// field, which callers may have set past the end).
    pub fn has_current(&self) -> (yes: bool)
        ensures
            yes == (self.current_index() < self.layouts().len()),
    {
        self.current < self.workspaces.len()
    }
}

/// Going to the next workspace and then to the previous one comes back to where one
/// started.
pub proof fn law_prev_undoes_next(current: usize, count: nat)
    requires
        1 <= count <= MAX_WORKSPACES,
        current < count,
    ensures
        prev_index(
            next_index(current, count),
            count_after_switch(count, next_index(current, count)),
        ) == current,
{
    let c = cycle_len(count);
    if current + 1 < c {
        vstd::arithmetic::div_mod::lemma_small_mod((current + 1) as nat, c);
    } else {
        vstd::arithmetic::div_mod::lemma_mod_self_0(c as int);
    }
}

} // verus!

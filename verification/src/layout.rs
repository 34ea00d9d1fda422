//! The tiling layout of the panes of one workspace.
use ratatui::layout::{Constraint, Direction, Layout, Rect};
use vstd::prelude::*;

verus! {

/// A rectangle of terminal cells: its top-left corner and its size.
#[derive(Debug, Clone, Copy, PartialEq, Eq, Structural)]
pub struct Area {
    pub x: u16,
    pub y: u16,
    pub width: u16,
    pub height: u16,
}

/// Whether `piece` spans the whole of `area` across the direction `dir`: a horizontal
/// split keeps the rows of the area, a vertical split keeps its columns.
pub open spec fn spans_across(piece: Area, area: Area, dir: SplitDir) -> bool {
    match dir {
        SplitDir::Horizontal => piece.y == area.y && piece.height == area.height,
        SplitDir::Vertical => piece.x == area.x && piece.width == area.width,
    }
}

/// Where `area` starts along `dir`.
pub open spec fn axis_start(area: Area, dir: SplitDir) -> int {
    match dir {
        SplitDir::Horizontal => area.x as int,
        SplitDir::Vertical => area.y as int,
    }
}

/// How long `area` is along `dir`, up to the last cell a `u16` can address (as ratatui's
/// `right` and `bottom` saturate).
pub open spec fn axis_len(area: Area, dir: SplitDir) -> int {
    let (start, len) = match dir {
        SplitDir::Horizontal => (area.x as int, area.width as int),
        SplitDir::Vertical => (area.y as int, area.height as int),
    };
    if start + len <= u16::MAX {
        len
    } else {
        u16::MAX - start
    }
}

/// Where `piece` starts along `dir`.
pub open spec fn piece_start(piece: Area, dir: SplitDir) -> int {
    match dir {
        SplitDir::Horizontal => piece.x as int,
        SplitDir::Vertical => piece.y as int,
    }
}

/// Where `piece` ends along `dir`.
pub open spec fn piece_end(piece: Area, dir: SplitDir) -> int {
    match dir {
        SplitDir::Horizontal => piece.x + piece.width,
        SplitDir::Vertical => piece.y + piece.height,
    }
}

/// Whether the cell `cell` is the boundary between the `i`th and the next of `count`
/// equal shares of `area` along `dir` (the `0`th boundary is where the area starts, the
/// `count`th where it ends), as ratatui rounds it: within 0.51 of a cell of the exact
/// boundary `start + i * len / count`. ratatui rounds twice (to hundredths, then to whole
/// cells), which alone can be 0.505 off.
pub open spec fn near_boundary(cell: int, area: Area, dir: SplitDir, count: int, i: int) -> bool {
    let scaled = 100 * count * cell - 100 * (count * axis_start(area, dir) + i * axis_len(area, dir));
    -51 * count <= scaled <= 51 * count
}

/// Whether `piece` is the `i`th of `count` equal shares of `area` along `dir`, as far as
/// whole cells allow: it lies inside the area, and it starts and ends at the rounded
/// boundaries of the exact share.
pub open spec fn is_share(piece: Area, area: Area, dir: SplitDir, count: int, i: int) -> bool {
    &&& axis_start(area, dir) <= piece_start(piece, dir)
    &&& piece_start(piece, dir) <= piece_end(piece, dir)
    &&& piece_end(piece, dir) <= axis_start(area, dir) + axis_len(area, dir)
    &&& near_boundary(piece_start(piece, dir), area, dir, count, i)
    &&& near_boundary(piece_end(piece, dir), area, dir, count, i + 1)
}

/// Whether `pieces` tile `area` along `dir` without gaps: the first starts where the
/// area starts, each ends where the next starts, and the last ends where the area ends.
pub open spec fn tiles(pieces: Seq<Area>, area: Area, dir: SplitDir) -> bool {
    pieces.len() > 0 ==> {
        &&& piece_start(pieces[0], dir) == axis_start(area, dir)
        &&& piece_end(pieces.last(), dir) == axis_start(area, dir) + axis_len(area, dir)
        &&& forall|i: int|
            0 <= i < pieces.len() - 1 ==> piece_end(#[trigger] pieces[i], dir) == piece_start(
                pieces[i + 1],
                dir,
            )
    }
}

/// Whether every ratio of `ratios` is `1 / ratios.len()`: equal shares of the whole.
pub open spec fn equal_ratios(ratios: Seq<(u32, u32)>) -> bool {
    forall|i: int| 0 <= i < ratios.len() ==> #[trigger] ratios[i] == (1u32, ratios.len() as u32)
}

/// ratatui's `Layout::split` in direction `dir` over `area`, with one constraint
/// `Constraint::Ratio(num, den)` for each `(num, den)` of `ratios`.
/// Claimed: one piece per constraint, and each piece spans the area across `dir` (the
/// source builds every rect from the area's own cross-axis position and size). When the
/// ratios are `count` equal shares `1 / count`, also: piece `i` is the `i`th share up to
/// rounding, and the pieces tile the area without gaps. The source keeps every solver
/// variable inside the area by required constraints; the ratio constraints fix each
/// share's size at `1 / count` of the area, the spacers around and between the shares
/// are empty, and the rect's start and end are the solver's values rounded to hundredths
/// and then to whole cells.
#[verifier::external_body]
fn split_by_ratios(dir: SplitDir, ratios: &Vec<(u32, u32)>, area: Area) -> (pieces: Vec<Area>)
    ensures
        pieces.len() == ratios.len(),
        forall|i: int| 0 <= i < pieces.len() ==> spans_across(#[trigger] pieces@[i], area, dir),
        equal_ratios(ratios@) ==> forall|i: int|
            0 <= i < pieces.len() ==> is_share(#[trigger] pieces@[i], area, dir, pieces.len() as int, i),
        equal_ratios(ratios@) ==> tiles(pieces@, area, dir),
{
    let direction = match dir {
        SplitDir::Horizontal => Direction::Horizontal,
        SplitDir::Vertical => Direction::Vertical,
    };
    let constraints: Vec<Constraint> = ratios.iter().map(|&(num, den)| Constraint::Ratio(num, den)).collect();
    let rect = Rect { x: area.x, y: area.y, width: area.width, height: area.height };
    Layout::default().direction(direction).constraints(constraints).split(rect).iter().map(
        |r| Area { x: r.x, y: r.y, width: r.width, height: r.height },
    ).collect()
}

/// The direction in which the panes of a layout are tiled.
#[derive(Debug, Clone, Copy, PartialEq, Eq, Structural)]
pub enum SplitDir {
    Horizontal,
    Vertical,
}

/// One pane of a layout.
#[derive(Debug, Clone)]
pub struct Pane {
    pub id: usize,
    pub title: String,
}

impl Pane {
    pub fn new(id: usize, title: String) -> (pane: Pane)
        ensures
            pane.id == id,
            pane.title@ == title@,
    {
        Pane { id, title }
    }
}

/// The title every pane gets when it is opened.
pub open spec fn shell_title() -> Seq<char> {
    seq!['S', 'h', 'e', 'l', 'l']
}

fn shell_title_string() -> (s: String)
    ensures
        s@ == shell_title(),
{
    let s = String::from_str("Shell");
    proof {
        reveal_strlit("Shell");
    }
    s
}

/// The focus after moving one pane forward among `count` panes.
pub open spec fn next_focus(focused: usize, count: usize) -> usize {
    if count == 0 {
        focused
    } else {
        ((focused + 1) % (count as int)) as usize
    }
}

/// The focus after moving one pane backward among `count` panes.
pub open spec fn prev_focus(focused: usize, count: usize) -> usize {
    if count == 0 {
        focused
    } else {
        ((focused + count - 1) % (count as int)) as usize
    }
}

/// The focus after the focused pane was removed and `count` panes are left.
pub open spec fn focus_after_close(focused: usize, count: usize) -> usize {
    if focused >= count {
        (count - 1) as usize
    } else {
        focused
    }
}

/// The panes of one workspace, the focused one among them and the split direction.
#[derive(Debug)]
pub struct LayoutManager {
    pub panes: Vec<Pane>,
    pub focused: usize,
    pub split: SplitDir,
    pub next_id: usize,
}

impl LayoutManager {
    /// The layout's invariant: there is a pane, the focus is on one of them, and the
    /// ids of the panes are distinct and below the next fresh id.
    pub open spec fn wf(&self) -> bool {
        &&& self.panes.len() >= 1
        &&& self.focused < self.panes.len()
        &&& forall|i: int| 0 <= i < self.panes.len() ==> #[trigger] self.panes@[i].id < self.next_id
        &&& forall|i: int, j: int|
            0 <= i < j < self.panes.len() ==> #[trigger] self.panes@[i].id != #[trigger] self.panes@[j].id
    }

    /// `self` is `old` with the focus moved to the next pane.
    pub open spec fn is_focus_next_of(&self, old: LayoutManager) -> bool {
        &&& self.panes@ == old.panes@
        &&& self.split == old.split
        &&& self.next_id == old.next_id
        &&& self.focused == next_focus(old.focused, old.panes.len())
    }

    /// `self` is `old` with the focus moved to the previous pane.
    pub open spec fn is_focus_prev_of(&self, old: LayoutManager) -> bool {
        &&& self.panes@ == old.panes@
        &&& self.split == old.split
        &&& self.next_id == old.next_id
        &&& self.focused == prev_focus(old.focused, old.panes.len())
    }

    /// `self` is `old` with a new shell pane, given the next id, opened after the
    /// others and focused, and tiled in direction `dir`.
    pub open spec fn is_split_of(&self, old: LayoutManager, dir: SplitDir) -> bool {
        &&& self.split == dir
        &&& self.panes.len() == old.panes.len() + 1
        &&& forall|i: int| 0 <= i < old.panes.len() ==> self.panes@[i] == old.panes@[i]
        &&& self.panes@.last().id == old.next_id
        &&& self.panes@.last().title@ == shell_title()
        &&& self.focused == old.panes.len()
        &&& self.next_id == old.next_id + 1
    }

    /// `self` is `old` with the focused pane closed, unless it was the only one; the
    /// focus stays at its index, or moves to the last pane when it was past the end.
    pub open spec fn is_close_of(&self, old: LayoutManager) -> bool {
        &&& self.split == old.split
        &&& self.next_id == old.next_id
        &&& old.panes.len() <= 1 ==> *self == old
        &&& old.panes.len() > 1 ==> {
            &&& self.panes@ == old.panes@.remove(old.focused as int)
            &&& self.focused == focus_after_close(old.focused, self.panes.len())
        }
    }

    /// The layout as it is made: one focused shell pane with id 0, split horizontally,
    /// the next id 1.
    pub open spec fn is_fresh(&self) -> bool {
        &&& self.wf()
        &&& self.panes.len() == 1
        &&& self.panes@[0].id == 0
        &&& self.panes@[0].title@ == shell_title()
        &&& self.focused == 0
        &&& self.split == SplitDir::Horizontal
        &&& self.next_id == 1
    }

    /// One shell pane, focused, split horizontally.
    pub fn new() -> (lm: LayoutManager)
        ensures
            lm.is_fresh(),
    {
        let pane = Pane::new(0, shell_title_string());
        LayoutManager { panes: vec![pane], focused: 0, split: SplitDir::Horizontal, next_id: 1 }
    }

    /// Opens a new shell pane after the others, focuses it, and tiles in direction `dir`.
    pub fn split_pane(&mut self, dir: SplitDir)
        requires
            old(self).next_id < usize::MAX,
        ensures
            final(self).is_split_of(*old(self), dir),
            old(self).wf() ==> final(self).wf(),
    {
        self.split = dir;
        let id = self.next_id;
        self.next_id = self.next_id + 1;
        self.panes.push(Pane::new(id, shell_title_string()));
        self.focused = self.panes.len() - 1;
    }

    /// Closes the focused pane, unless it is the only one.
    pub fn close_focused(&mut self)
        requires
            old(self).panes.len() > 1 ==> old(self).focused < old(self).panes.len(),
        ensures
            final(self).is_close_of(*old(self)),
            old(self).wf() ==> final(self).wf(),
            old(self).panes.len() > 1 && old(self).focused + 1 < old(self).panes.len()
                ==> final(self).focused == old(self).focused,
            old(self).panes.len() > 1 && old(self).focused + 1 == old(self).panes.len()
                ==> final(self).focused == old(self).focused - 1,
    {
        if self.panes.len() <= 1 {
            return ;
        }
        self.panes.remove(self.focused);
        if self.focused >= self.panes.len() {
            self.focused = self.panes.len() - 1;
        }
        proof {
            let o = old(self).panes@;
            let f = old(self).focused as int;
            assert forall|i: int| 0 <= i < self.panes.len() implies
                #[trigger] self.panes@[i] == (if i < f { o[i] } else { o[i + 1] }) by {}
        }
    }

    /// Moves the focus to the next pane, wrapping around after the last one.
    pub fn focus_next(&mut self)
        ensures
            final(self).is_focus_next_of(*old(self)),
            old(self).wf() ==> final(self).wf(),
    {
        let n = self.panes.len();
        if n == 0 {
            return ;
        }
        // (focused + 1) % n, computed without the sum, which could overflow.
        let f = self.focused % n;
        proof {
            lemma_step_forward(self.focused as int, n as int);
        }
        self.focused = if f + 1 == n {
            0
        } else {
            f + 1
        };
    }

    /// Moves the focus to the previous pane, wrapping around before the first one.
    pub fn focus_prev(&mut self)
        ensures
            final(self).is_focus_prev_of(*old(self)),
            old(self).wf() ==> final(self).wf(),
    {
        let n = self.panes.len();
        if n == 0 {
            return ;
        }
        // (focused + n - 1) % n, computed without the sum, which could overflow.
        let f = self.focused % n;
        proof {
            lemma_step_backward(self.focused as int, n as int);
        }
        self.focused = if f == 0 {
            n - 1
        } else {
            f - 1
        };
    }

    /// One area per pane, tiled inside `area` in the layout's split direction without
    /// gaps, each pane given an equal share of it, up to rounding to whole cells. The
    /// pane count is taken as a `u16`, as the tiling constraints count it.
    pub fn compute_rects(&self, area: Area) -> (rects: Vec<Area>)
        ensures
            rects.len() == (if self.panes.len() == 0 { 0 } else { self.panes.len() as u16 }),
            forall|i: int| 0 <= i < rects.len() ==> spans_across(#[trigger] rects@[i], area, self.split),
            forall|i: int|
                0 <= i < rects.len() ==> is_share(
                    #[trigger] rects@[i],
                    area,
                    self.split,
                    rects.len() as int,
                    i,
                ),
            tiles(rects@, area, self.split),
    {
        if self.panes.len() == 0 {
            return Vec::new();
        }
        let n = self.panes.len() as u16;
        let mut ratios: Vec<(u32, u32)> = Vec::new();
        let mut k: u16 = 0;
        while k < n
            invariant
                k <= n,
                ratios.len() == k,
                forall|i: int| 0 <= i < k ==> #[trigger] ratios@[i] == (1u32, n as u32),
            decreases n - k,
        {
            ratios.push((1, n as u32));
            k = k + 1;
        }
        assert(equal_ratios(ratios@));
        split_by_ratios(self.split, &ratios, area)
    }
}

/// One step forward among `n` positions, from `f`, as the remainder of `f + 1`.
proof fn lemma_step_forward(f: int, n: int)
    requires
        0 <= f,
        0 < n,
    ensures
        (f + 1) % n == (if f % n + 1 == n { 0 } else { f % n + 1 }),
{
    vstd::arithmetic::div_mod::lemma_fundamental_div_mod(f, n);
    let q = f / n;
    let r = f % n;
    vstd::arithmetic::div_mod::lemma_mod_multiples_vanish(q, r + 1, n);
    if r + 1 == n {
        vstd::arithmetic::div_mod::lemma_mod_self_0(n);
    } else {
        vstd::arithmetic::div_mod::lemma_small_mod((r + 1) as nat, n as nat);
    }
    assert(f + 1 == n * q + (r + 1)) by (nonlinear_arith)
        requires
            f == n * q + r,
    ;
}

/// One step backward among `n` positions, from `f`, as the remainder of `f + n - 1`.
proof fn lemma_step_backward(f: int, n: int)
    requires
        0 <= f,
        0 < n,
    ensures
        (f + n - 1) % n == (if f % n == 0 { n - 1 } else { f % n - 1 }),
{
    vstd::arithmetic::div_mod::lemma_fundamental_div_mod(f, n);
    let q = f / n;
    let r = f % n;
    assert(f + n - 1 == n * q + (r + n - 1)) by (nonlinear_arith)
        requires
            f == n * q + r,
    ;
    vstd::arithmetic::div_mod::lemma_mod_multiples_vanish(q, r + n - 1, n);
    if r == 0 {
        vstd::arithmetic::div_mod::lemma_small_mod((n - 1) as nat, n as nat);
    } else {
        vstd::arithmetic::div_mod::lemma_mod_add_multiples_vanish(r - 1, n);
        vstd::arithmetic::div_mod::lemma_small_mod((r - 1) as nat, n as nat);
    }
}

/// Moving the focus forward and then backward, or backward and then forward, returns
/// it to the pane it was on, and leaves the panes, the split and the next id as they
/// were.
pub proof fn law_focus_moves_undo_each_other(start: LayoutManager, moved: LayoutManager, back: LayoutManager)
    requires
        start.wf(),
        (moved.is_focus_next_of(start) && back.is_focus_prev_of(moved)) || (moved.is_focus_prev_of(
            start,
        ) && back.is_focus_next_of(moved)),
    ensures
        back.focused == start.focused,
        back.panes@ == start.panes@,
        back.split == start.split,
        back.next_id == start.next_id,
{
    let n = start.panes.len() as int;
    let f = start.focused as int;
    vstd::arithmetic::div_mod::lemma_small_mod(f as nat, n as nat);
    lemma_step_forward(f, n);
    lemma_step_backward(f, n);
    let ahead = if f + 1 == n { 0 } else { f + 1 };
    let behind = if f == 0 { n - 1 } else { f - 1 };
    vstd::arithmetic::div_mod::lemma_small_mod(ahead as nat, n as nat);
    vstd::arithmetic::div_mod::lemma_small_mod(behind as nat, n as nat);
    lemma_step_backward(ahead, n);
    lemma_step_forward(behind, n);
}

/// Every operation on a layout keeps its invariant: opening a pane, closing the focused
/// one, and moving the focus either way (the fresh layout has it too).
pub proof fn law_operations_keep_invariant(before: LayoutManager, after: LayoutManager, dir: SplitDir)
    requires
        before.wf(),
        after.is_split_of(before, dir) || after.is_close_of(before) || after.is_focus_next_of(before)
            || after.is_focus_prev_of(before),
    ensures
        after.wf(),
{
    let n = before.panes.len() as int;
    let f = before.focused as int;
    if after.is_focus_next_of(before) {
        lemma_step_forward(f, n);
        vstd::arithmetic::div_mod::lemma_small_mod(f as nat, n as nat);
    } else if after.is_focus_prev_of(before) {
        lemma_step_backward(f, n);
        vstd::arithmetic::div_mod::lemma_small_mod(f as nat, n as nat);
    } else if after.is_split_of(before, dir) {
        assert forall|i: int, j: int| 0 <= i < j < after.panes.len() implies #[trigger] after.panes@[i].id
            != #[trigger] after.panes@[j].id by {
            if j < n {
                assert(before.panes@[i].id != before.panes@[j].id);
            } else {
                assert(before.panes@[i].id < before.next_id);
            }
        }
        assert forall|i: int| 0 <= i < after.panes.len() implies #[trigger] after.panes@[i].id < after.next_id by {
            if i < n {
                assert(before.panes@[i].id < before.next_id);
            }
        }
    } else if n > 1 {
        let o = before.panes@;
        assert forall|i: int| 0 <= i < after.panes.len() implies #[trigger] after.panes@[i] == (if i < f {
            o[i]
        } else {
            o[i + 1]
        }) by {}
        assert forall|i: int, j: int| 0 <= i < j < after.panes.len() implies #[trigger] after.panes@[i].id
            != #[trigger] after.panes@[j].id by {
            let a = if i < f { i } else { i + 1 };
            let b = if j < f { j } else { j + 1 };
            assert(o[a].id != o[b].id);
        }
        assert forall|i: int| 0 <= i < after.panes.len() implies #[trigger] after.panes@[i].id < after.next_id by {
            let a = if i < f { i } else { i + 1 };
            assert(o[a].id < before.next_id);
        }
    }
}

/// Closing the focused pane moves the focus to the pane that took its place, the one
/// after it; where the closed pane was the last, to the one before it. The other panes
/// keep their order.
pub proof fn law_close_focuses_the_following_pane(before: LayoutManager, after: LayoutManager)
    requires
        before.wf(),
        before.panes.len() > 1,
        after.is_close_of(before),
    ensures
        after.panes.len() == before.panes.len() - 1,
        before.focused + 1 < before.panes.len() ==> after.focused == before.focused
            && after.panes@[after.focused as int] == before.panes@[before.focused + 1],
        before.focused + 1 == before.panes.len() ==> after.focused == before.focused - 1
            && after.panes@[after.focused as int] == before.panes@[before.focused - 1],
        forall|i: int| 0 <= i < before.focused ==> after.panes@[i] == #[trigger] before.panes@[i],
        forall|i: int|
            before.focused < i < before.panes.len() ==> after.panes@[i - 1] == #[trigger] before.panes@[i],
{
}

} // verus!

//! What a key press does: the keyboard map of the desktop.
use crate::config::Keybinds;
use crate::text::same_text;
use crate::layout::{LayoutManager, SplitDir};
use crate::workspace::WorkspaceManager;
use vstd::prelude::*;

verus! {

/// The key of a key press, as far as the desktop tells keys apart.
#[derive(Debug, Clone, Copy, PartialEq, Eq, Structural)]
pub enum KeyCode {
    Char(char),
    Tab,
    BackTab,
    Esc,
    Enter,
    Up,
    Down,
    Backspace,
    Other,
}

/// A key press: the key, and whether Control, and no other modifier, was held.
#[derive(Debug, Clone, Copy, PartialEq, Eq, Structural)]
pub struct KeyPress {
    pub code: KeyCode,
    pub control_only: bool,
}

/// What the launcher is told to do while it is open.
#[derive(Debug, Clone, Copy, PartialEq, Eq, Structural)]
pub enum LauncherCommand {
    Hide,
    SelectNext,
    SelectPrev,
    PopChar,
    PushChar(char),
    LaunchSelected,
}

/// What is left to do after a key press, outside the workspaces.
#[derive(Debug, Clone, Copy, PartialEq, Eq, Structural)]
pub enum Action {
    /// Nothing more.
    Nothing,
    /// Leave the desktop.
    Quit,
    /// Open the launcher.
    ShowLauncher,
    /// Pass a command to the open launcher.
    Launcher(LauncherCommand),
    /// The desktop switched to the workspace with this index (counted from 0); announce it.
    WorkspaceSwitched(usize),
}

/// How often the desktop refreshes the statusbar and the toasts, in milliseconds.
pub const TICK_MS: u64 = 500;

/// Whether a tick is due, `elapsed_ms` milliseconds after the last one.
pub fn tick_due(elapsed_ms: u64) -> (due: bool)
    ensures
        due == (elapsed_ms >= TICK_MS),
{
    elapsed_ms >= TICK_MS
}

/// Ctrl+C, which quits whatever else is open.
pub open spec fn is_interrupt(key: KeyPress) -> bool {
    key.control_only && key.code == KeyCode::Char('c')
}

/// What a key tells the open launcher.
pub open spec fn launcher_action(code: KeyCode) -> Action {
    match code {
        KeyCode::Esc => Action::Launcher(LauncherCommand::Hide),
        KeyCode::Down => Action::Launcher(LauncherCommand::SelectNext),
        KeyCode::Up => Action::Launcher(LauncherCommand::SelectPrev),
        KeyCode::Backspace => Action::Launcher(LauncherCommand::PopChar),
        KeyCode::Enter => Action::Launcher(LauncherCommand::LaunchSelected),
        KeyCode::Char(c) => Action::Launcher(LauncherCommand::PushChar(c)),
        _ => Action::Nothing,
    }
}

/// Whether `c` selects a workspace by its number, 1 to 9.
pub open spec fn is_workspace_digit(c: char) -> bool {
    '1' <= c && c <= '9'
}

/// The workspace index (counted from 0) that the digit `c` selects.
pub open spec fn digit_index(c: char) -> usize {
    (c as u32 - '1' as u32) as usize
}

/// A command that the keybinds can bind a key to.
#[derive(Debug, Clone, Copy, PartialEq, Eq, Structural)]
pub enum KeyCommand {
    Quit,
    OpenLauncher,
    FocusNext,
    FocusPrev,
    SplitHorizontal,
    SplitVertical,
    ClosePane,
    Unbound,
}

/// Whether the keybind `name` names the key `code`: a single character names that
/// character key, `space` the space bar, and `Tab`, `BackTab`, `Esc`, `Enter`, `Up`,
/// `Down` and `Backspace` those keys.
pub open spec fn names_key(name: Seq<char>, code: KeyCode) -> bool {
    match code {
        KeyCode::Char(c) => name == seq![c] || (c == ' ' && name == seq!['s', 'p', 'a', 'c', 'e']),
        KeyCode::Tab => name == seq!['T', 'a', 'b'],
        KeyCode::BackTab => name == seq!['B', 'a', 'c', 'k', 'T', 'a', 'b'],
        KeyCode::Esc => name == seq!['E', 's', 'c'],
        KeyCode::Enter => name == seq!['E', 'n', 't', 'e', 'r'],
        KeyCode::Up => name == seq!['U', 'p'],
        KeyCode::Down => name == seq!['D', 'o', 'w', 'n'],
        KeyCode::Backspace => name == seq!['B', 'a', 'c', 'k', 's', 'p', 'a', 'c', 'e'],
        KeyCode::Other => false,
    }
}

/// The command the keybinds `kb` bind the key `code` to; where two bind the same key,
/// the first of quit, open launcher, focus next, focus previous, split horizontally,
/// split vertically and close pane wins.
pub open spec fn bound_command(kb: Keybinds, code: KeyCode) -> KeyCommand {
    if names_key(kb.quit@, code) {
        KeyCommand::Quit
    } else if names_key(kb.open_launcher@, code) {
        KeyCommand::OpenLauncher
    } else if names_key(kb.focus_next@, code) {
        KeyCommand::FocusNext
    } else if names_key(kb.focus_prev@, code) {
        KeyCommand::FocusPrev
    } else if names_key(kb.split_horizontal@, code) {
        KeyCommand::SplitHorizontal
    } else if names_key(kb.split_vertical@, code) {
        KeyCommand::SplitVertical
    } else if names_key(kb.close_pane@, code) {
        KeyCommand::ClosePane
    } else {
        KeyCommand::Unbound
    }
}

/// Whether the keybind `name` names the key `code`.
pub fn key_named(name: &str, code: KeyCode) -> (yes: bool)
    ensures
        yes == names_key(name@, code),
{
    proof {
        reveal_strlit("space");
        reveal_strlit("Tab");
        reveal_strlit("BackTab");
        reveal_strlit("Esc");
        reveal_strlit("Enter");
        reveal_strlit("Up");
        reveal_strlit("Down");
        reveal_strlit("Backspace");
        assert("space"@ =~= seq!['s', 'p', 'a', 'c', 'e']);
        assert("Tab"@ =~= seq!['T', 'a', 'b']);
        assert("BackTab"@ =~= seq!['B', 'a', 'c', 'k', 'T', 'a', 'b']);
        assert("Esc"@ =~= seq!['E', 's', 'c']);
        assert("Enter"@ =~= seq!['E', 'n', 't', 'e', 'r']);
        assert("Up"@ =~= seq!['U', 'p']);
        assert("Down"@ =~= seq!['D', 'o', 'w', 'n']);
        assert("Backspace"@ =~= seq!['B', 'a', 'c', 'k', 's', 'p', 'a', 'c', 'e']);
    }
    match code {
        KeyCode::Char(c) => {
            let single = name.unicode_len() == 1 && name.get_char(0) == c;
            proof {
                if single {
                    assert(name@ =~= seq![c]);
                } else if name@ == seq![c] {
                    assert(name@.len() == 1 && name@[0] == c);
                }
            }
            let space = c == ' ' && same_text(name, "space");
            single || space
        },
        KeyCode::Tab => same_text(name, "Tab"),
        KeyCode::BackTab => same_text(name, "BackTab"),
        KeyCode::Esc => same_text(name, "Esc"),
        KeyCode::Enter => same_text(name, "Enter"),
        KeyCode::Up => same_text(name, "Up"),
        KeyCode::Down => same_text(name, "Down"),
        KeyCode::Backspace => same_text(name, "Backspace"),
        KeyCode::Other => false,
    }
}

/// The command the keybinds `kb` bind the key `code` to.
pub fn command_for(kb: &Keybinds, code: KeyCode) -> (command: KeyCommand)
    ensures
        command == bound_command(*kb, code),
{
    if key_named(kb.quit.as_str(), code) {
        KeyCommand::Quit
    } else if key_named(kb.open_launcher.as_str(), code) {
        KeyCommand::OpenLauncher
    } else if key_named(kb.focus_next.as_str(), code) {
        KeyCommand::FocusNext
    } else if key_named(kb.focus_prev.as_str(), code) {
        KeyCommand::FocusPrev
    } else if key_named(kb.split_horizontal.as_str(), code) {
        KeyCommand::SplitHorizontal
    } else if key_named(kb.split_vertical.as_str(), code) {
        KeyCommand::SplitVertical
    } else if key_named(kb.close_pane.as_str(), code) {
        KeyCommand::ClosePane
    } else {
        KeyCommand::Unbound
    }
}

/// Whether the key `code`, pressed with the launcher closed, keeps the counters of
/// `layout` (the current layout) in range: on the others the desktop would overflow.
pub open spec fn key_in_range(layout: LayoutManager, kb: Keybinds, code: KeyCode) -> bool {
    match bound_command(kb, code) {
        KeyCommand::SplitHorizontal => layout.next_id < usize::MAX,
        KeyCommand::SplitVertical => layout.next_id < usize::MAX,
        KeyCommand::ClosePane => layout.panes.len() > 1 ==> layout.focused < layout.panes.len(),
        _ => true,
    }
}

/// Whether `new` is `old` with at most the current layout changed.
pub open spec fn others_kept(new: WorkspaceManager, old: WorkspaceManager) -> bool {
    &&& new.current_index() == old.current_index()
    &&& new.layouts().len() == old.layouts().len()
    &&& forall|i: int|
        0 <= i < old.layouts().len() && i != old.current_index() ==> new.layouts()[i] == old.layouts()[i]
}

/// Whether `new` holds the same workspaces as `old`, with the same one current.
pub open spec fn same_workspaces(new: WorkspaceManager, old: WorkspaceManager) -> bool {
    new.layouts() == old.layouts() && new.current_index() == old.current_index()
}

/// Every layout of `w` keeps the layout invariant.
pub open spec fn layouts_wf(w: WorkspaceManager) -> bool {
    forall|i: int| 0 <= i < w.layouts().len() ==> (#[trigger] w.layouts()[i]).wf()
}

/// The current layout of `w`.
pub open spec fn current_of(w: WorkspaceManager) -> LayoutManager {
    w.layouts()[w.current_index() as int]
}

/// What a key press does with the launcher closed, with the keybinds `kb`: the action it
/// leaves, and how the workspaces `new` come from the workspaces `old`. Keys the keybinds
/// leave unbound switch workspaces: 1 to 9 by number, [ and ] to the previous and next.
pub open spec fn desktop_key(
    new: WorkspaceManager,
    old: WorkspaceManager,
    kb: Keybinds,
    code: KeyCode,
    action: Action,
) -> bool {
    match bound_command(kb, code) {
        KeyCommand::Quit => action == Action::Quit && same_workspaces(new, old),
        KeyCommand::OpenLauncher => action == Action::ShowLauncher && same_workspaces(new, old),
        KeyCommand::FocusNext => action == Action::Nothing && others_kept(new, old) && current_of(
            new,
        ).is_focus_next_of(current_of(old)),
        KeyCommand::FocusPrev => action == Action::Nothing && others_kept(new, old) && current_of(
            new,
        ).is_focus_prev_of(current_of(old)),
        KeyCommand::SplitHorizontal => action == Action::Nothing && others_kept(new, old)
            && current_of(new).is_split_of(current_of(old), SplitDir::Horizontal),
        KeyCommand::SplitVertical => action == Action::Nothing && others_kept(new, old)
            && current_of(new).is_split_of(current_of(old), SplitDir::Vertical),
        KeyCommand::ClosePane => action == Action::Nothing && others_kept(new, old) && current_of(
            new,
        ).is_close_of(current_of(old)),
        KeyCommand::Unbound => match code {
            KeyCode::Char(c) => if is_workspace_digit(c) {
                action == Action::WorkspaceSwitched(digit_index(c)) && new.switched_from(old, digit_index(c))
            } else if c == '[' {
                action == Action::Nothing && new.switched_from(
                    old,
                    crate::workspace::prev_index(old.current_index(), old.layouts().len()),
                )
            } else if c == ']' {
                action == Action::Nothing && new.switched_from(
                    old,
                    crate::workspace::next_index(old.current_index(), old.layouts().len()),
                )
            } else {
                action == Action::Nothing && same_workspaces(new, old)
            },
            _ => action == Action::Nothing && same_workspaces(new, old),
        },
    }
}

/// Handles one key press, with the keybinds `kb`. Ctrl+C quits. While the launcher is
/// open, keys go to it; otherwise the bound keys quit, open the launcher, move the focus,
/// split or close panes of the current workspace (by default q, space, Tab, BackTab, h,
/// v, x), and unbound keys switch workspaces (1 to 9, [ and ]).
pub fn dispatch_key(
    workspaces: &mut WorkspaceManager,
    kb: &Keybinds,
    launcher_visible: bool,
    key: KeyPress,
) -> (action: Action)
    requires
        !is_interrupt(key) && !launcher_visible ==> {
            &&& old(workspaces).current_index() < old(workspaces).layouts().len()
            &&& key_in_range(current_of(*old(workspaces)), *kb, key.code)
        },
    ensures
        is_interrupt(key) ==> action == Action::Quit && *final(workspaces) == *old(workspaces),
        !is_interrupt(key) && launcher_visible ==> action == launcher_action(key.code)
            && *final(workspaces) == *old(workspaces),
        !is_interrupt(key) && !launcher_visible ==> desktop_key(
            *final(workspaces),
            *old(workspaces),
            *kb,
            key.code,
            action,
        ),
        final(workspaces).layouts().len() >= old(workspaces).layouts().len(),
        old(workspaces).wf() ==> final(workspaces).wf(),
        layouts_wf(*old(workspaces)) ==> layouts_wf(*final(workspaces)),
        key.control_only && key.code == KeyCode::Char('c') ==> action == Action::Quit
            && *final(workspaces) == *old(workspaces),
        !key.control_only && launcher_visible ==> action == launcher_action(key.code)
            && *final(workspaces) == *old(workspaces),
        !key.control_only && launcher_visible && key.code is Char ==> action == Action::Launcher(
            LauncherCommand::PushChar(key.code->Char_0),
        ),
        !key.control_only && !launcher_visible ==> desktop_key(
            *final(workspaces),
            *old(workspaces),
            *kb,
            key.code,
            action,
        ),
{
    if key.control_only && key.code == KeyCode::Char('c') {
        return Action::Quit;
    }
    if launcher_visible {
        return match key.code {
            KeyCode::Esc => Action::Launcher(LauncherCommand::Hide),
            KeyCode::Down => Action::Launcher(LauncherCommand::SelectNext),
            KeyCode::Up => Action::Launcher(LauncherCommand::SelectPrev),
            KeyCode::Backspace => Action::Launcher(LauncherCommand::PopChar),
            KeyCode::Enter => Action::Launcher(LauncherCommand::LaunchSelected),
            KeyCode::Char(c) => Action::Launcher(LauncherCommand::PushChar(c)),
            _ => Action::Nothing,
        };
    }
    let command = command_for(kb, key.code);
    proof {
        let o = old(workspaces).layouts();
        assert(o.update(old(workspaces).current_index() as int, current_of(*old(workspaces))) =~= o);
    }
    let layout = workspaces.current_layout();
    match command {
        KeyCommand::Quit => Action::Quit,
        KeyCommand::OpenLauncher => Action::ShowLauncher,
        KeyCommand::FocusNext => {
            layout.focus_next();
            Action::Nothing
        },
        KeyCommand::FocusPrev => {
            layout.focus_prev();
            Action::Nothing
        },
        KeyCommand::SplitHorizontal => {
            layout.split_pane(SplitDir::Horizontal);
            Action::Nothing
        },
        KeyCommand::SplitVertical => {
            layout.split_pane(SplitDir::Vertical);
            Action::Nothing
        },
        KeyCommand::ClosePane => {
            layout.close_focused();
            Action::Nothing
        },
        KeyCommand::Unbound => match key.code {
            KeyCode::Char(c) => {
                if '1' <= c && c <= '9' {
                    let idx = (c as u32 - '1' as u32) as usize;
                    workspaces.switch_to(idx);
                    Action::WorkspaceSwitched(idx)
                } else if c == '[' {
                    workspaces.prev();
                    Action::Nothing
                } else if c == ']' {
                    proof {
                        workspaces.lemma_count_fits();
                    }
                    workspaces.next();
                    Action::Nothing
                } else {
                    Action::Nothing
                }
            },
            _ => Action::Nothing,
        },
    }
}

/// Only Control+C interrupts: a key pressed without Control never does, and no key but
/// C does, so the desktop quits on an interrupt only through a bound key.
pub proof fn law_only_control_c_interrupts(key: KeyPress)
    ensures
        !key.control_only ==> !is_interrupt(key),
        key.code != KeyCode::Char('c') ==> !is_interrupt(key),
        key.control_only && key.code == KeyCode::Char('c') ==> is_interrupt(key),
{
}

/// With the launcher open, a character typed without Control goes into the launcher's
/// search, whatever the character.
pub proof fn law_typed_characters_reach_the_launcher(c: char)
    ensures
        !is_interrupt(KeyPress { code: KeyCode::Char(c), control_only: false }),
        launcher_action(KeyCode::Char(c)) == Action::Launcher(LauncherCommand::PushChar(c)),
{
}

} // verus!

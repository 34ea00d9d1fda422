use tde::{command_for, dispatch_key, key_named, Action, KeyCode, KeyCommand, KeyPress, Keybinds, LauncherCommand, SplitDir, WorkspaceManager};

fn key(code: KeyCode) -> KeyPress {
    KeyPress { code, control_only: false }
}

#[test]
fn ctrl_c_quits_even_with_the_launcher_open() {
    let mut wm = WorkspaceManager::new();
    let ctrl_c = KeyPress { code: KeyCode::Char('c'), control_only: true };
    assert_eq!(dispatch_key(&mut wm, &Keybinds::default(), true, ctrl_c), Action::Quit);
    assert_eq!(dispatch_key(&mut wm, &Keybinds::default(), false, ctrl_c), Action::Quit);
    assert_eq!(wm.count(), 1);
}

#[test]
fn launcher_gets_keys_while_open() {
    let mut wm = WorkspaceManager::new();
    assert_eq!(dispatch_key(&mut wm, &Keybinds::default(), true, key(KeyCode::Esc)), Action::Launcher(LauncherCommand::Hide));
    assert_eq!(dispatch_key(&mut wm, &Keybinds::default(), true, key(KeyCode::Down)), Action::Launcher(LauncherCommand::SelectNext));
    assert_eq!(dispatch_key(&mut wm, &Keybinds::default(), true, key(KeyCode::Up)), Action::Launcher(LauncherCommand::SelectPrev));
    assert_eq!(dispatch_key(&mut wm, &Keybinds::default(), true, key(KeyCode::Backspace)), Action::Launcher(LauncherCommand::PopChar));
    assert_eq!(dispatch_key(&mut wm, &Keybinds::default(), true, key(KeyCode::Enter)), Action::Launcher(LauncherCommand::LaunchSelected));
    assert_eq!(dispatch_key(&mut wm, &Keybinds::default(), true, key(KeyCode::Char('q'))), Action::Launcher(LauncherCommand::PushChar('q')));
    assert_eq!(dispatch_key(&mut wm, &Keybinds::default(), true, key(KeyCode::Tab)), Action::Nothing);
    assert_eq!(wm.current_layout().panes.len(), 1);
}

#[test]
fn q_quits_and_space_opens_the_launcher() {
    let mut wm = WorkspaceManager::new();
    assert_eq!(dispatch_key(&mut wm, &Keybinds::default(), false, key(KeyCode::Char('q'))), Action::Quit);
    assert_eq!(dispatch_key(&mut wm, &Keybinds::default(), false, key(KeyCode::Char(' '))), Action::ShowLauncher);
    assert_eq!(dispatch_key(&mut wm, &Keybinds::default(), false, key(KeyCode::Char('z'))), Action::Nothing);
}

#[test]
fn pane_keys_change_the_current_layout() {
    let mut wm = WorkspaceManager::new();
    assert_eq!(dispatch_key(&mut wm, &Keybinds::default(), false, key(KeyCode::Char('v'))), Action::Nothing);
    assert_eq!(dispatch_key(&mut wm, &Keybinds::default(), false, key(KeyCode::Char('h'))), Action::Nothing);
    assert_eq!(wm.current_layout().panes.len(), 3);
    assert_eq!(wm.current_layout().split, SplitDir::Horizontal);
    assert_eq!(wm.current_layout().focused, 2);
    dispatch_key(&mut wm, &Keybinds::default(), false, key(KeyCode::Tab));
    assert_eq!(wm.current_layout().focused, 0);
    dispatch_key(&mut wm, &Keybinds::default(), false, key(KeyCode::BackTab));
    assert_eq!(wm.current_layout().focused, 2);
    dispatch_key(&mut wm, &Keybinds::default(), false, key(KeyCode::Char('x')));
    assert_eq!(wm.current_layout().panes.len(), 2);
    assert_eq!(wm.current_layout().focused, 1);
}

#[test]
fn digits_switch_workspaces_and_report_it() {
    let mut wm = WorkspaceManager::new();
    assert_eq!(dispatch_key(&mut wm, &Keybinds::default(), false, key(KeyCode::Char('3'))), Action::WorkspaceSwitched(2));
    assert_eq!(wm.current, 2);
    assert_eq!(wm.count(), 3);
    assert_eq!(dispatch_key(&mut wm, &Keybinds::default(), false, key(KeyCode::Char('9'))), Action::WorkspaceSwitched(8));
    assert_eq!(wm.count(), 9);
    assert_eq!(dispatch_key(&mut wm, &Keybinds::default(), false, key(KeyCode::Char('0'))), Action::Nothing);
    assert_eq!(wm.current, 8);
}

#[test]
fn brackets_move_between_workspaces() {
    let mut wm = WorkspaceManager::new();
    dispatch_key(&mut wm, &Keybinds::default(), false, key(KeyCode::Char(']')));
    assert_eq!(wm.current, 1);
    dispatch_key(&mut wm, &Keybinds::default(), false, key(KeyCode::Char('[')));
    assert_eq!(wm.current, 0);
    dispatch_key(&mut wm, &Keybinds::default(), false, key(KeyCode::Char('[')));
    assert_eq!(wm.current, 1);
}

#[test]
fn layouts_of_other_workspaces_are_untouched() {
    let mut wm = WorkspaceManager::new();
    dispatch_key(&mut wm, &Keybinds::default(), false, key(KeyCode::Char('h')));
    dispatch_key(&mut wm, &Keybinds::default(), false, key(KeyCode::Char('2')));
    dispatch_key(&mut wm, &Keybinds::default(), false, key(KeyCode::Char('v')));
    dispatch_key(&mut wm, &Keybinds::default(), false, key(KeyCode::Char('v')));
    assert_eq!(wm.current_layout().panes.len(), 3);
    dispatch_key(&mut wm, &Keybinds::default(), false, key(KeyCode::Char('1')));
    assert_eq!(wm.current_layout().panes.len(), 2);
}

#[test]
fn configured_keybinds_replace_the_defaults() {
    let mut kb = Keybinds::default();
    kb.quit = "z".to_string();
    kb.split_vertical = "s".to_string();
    kb.open_launcher = "Enter".to_string();
    let mut wm = WorkspaceManager::new();
    assert_eq!(dispatch_key(&mut wm, &kb, false, key(KeyCode::Char('z'))), Action::Quit);
    assert_eq!(dispatch_key(&mut wm, &kb, false, key(KeyCode::Char('q'))), Action::Nothing);
    assert_eq!(dispatch_key(&mut wm, &kb, false, key(KeyCode::Enter)), Action::ShowLauncher);
    assert_eq!(dispatch_key(&mut wm, &kb, false, key(KeyCode::Char(' '))), Action::Nothing);
    dispatch_key(&mut wm, &kb, false, key(KeyCode::Char('s')));
    assert_eq!(wm.current_layout().split, SplitDir::Vertical);
    assert_eq!(wm.current_layout().panes.len(), 2);
    dispatch_key(&mut wm, &kb, false, key(KeyCode::Char('v')));
    assert_eq!(wm.current_layout().panes.len(), 2);
}

#[test]
fn keybind_names() {
    assert!(key_named("space", KeyCode::Char(' ')));
    assert!(key_named(" ", KeyCode::Char(' ')));
    assert!(key_named("Tab", KeyCode::Tab));
    assert!(key_named("BackTab", KeyCode::BackTab));
    assert!(!key_named("tab", KeyCode::Tab));
    assert!(!key_named("qq", KeyCode::Char('q')));
    assert!(!key_named("", KeyCode::Other));
    let kb = Keybinds::default();
    assert_eq!(command_for(&kb, KeyCode::Char('x')), KeyCommand::ClosePane);
    assert_eq!(command_for(&kb, KeyCode::Char('1')), KeyCommand::Unbound);
}

#[test]
fn tick_is_due_every_half_second() {
    assert!(!tde::tick_due(499));
    assert!(tde::tick_due(500));
    assert!(tde::tick_due(10_000));
    assert_eq!(tde::TICK_MS, 500);
}

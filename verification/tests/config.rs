use tde::{Config, Keybinds, StatusbarConfig, StatusbarPosition, Theme};

#[test]
fn default_theme() {
    let t = Theme::default();
    assert_eq!(t.name, "default");
    assert_eq!(t.accent, "cyan");
}

#[test]
fn default_keybinds() {
    let k = Keybinds::default();
    assert_eq!(k.quit, "q");
    assert_eq!(k.focus_next, "Tab");
    assert_eq!(k.focus_prev, "BackTab");
    assert_eq!(k.open_launcher, "space");
    assert_eq!(k.split_horizontal, "h");
    assert_eq!(k.split_vertical, "v");
    assert_eq!(k.close_pane, "x");
}

#[test]
fn default_statusbar() {
    let s = StatusbarConfig::default();
    assert!(s.show_clock && s.show_cpu && s.show_mem);
    assert_eq!(s.position, StatusbarPosition::Bottom);
}

#[test]
fn default_config_uses_default_parts() {
    let c = Config::default();
    assert_eq!(c.theme.name, "default");
    assert_eq!(c.keybinds.quit, "q");
    assert_eq!(c.statusbar.position, StatusbarPosition::Bottom);
}

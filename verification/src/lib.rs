//! The verified core of a keyboard-driven terminal desktop: tiling layouts,
//! workspaces, notification toasts, key dispatch and configuration defaults.
pub mod config;
pub mod text;
pub mod layout;
pub mod workspace;
pub mod notifications;
pub mod keys;
pub mod terminal;
pub mod plugin;
pub mod statusbar;

pub use layout::{Area, Pane, SplitDir, LayoutManager};
pub use workspace::{WorkspaceManager, WorkspaceTab, MAX_WORKSPACES};
pub use notifications::{toast_text, NotificationDaemon, Toast, ToastSlot, MAX_VISIBLE, TOAST_HEIGHT, TOAST_TTL_NS, TOAST_WIDTH};
pub use keys::{command_for, dispatch_key, tick_due, TICK_MS, key_named, Action, KeyCode, KeyCommand, KeyPress, LauncherCommand};
pub use config::{Config, Keybinds, StatusbarConfig, StatusbarPosition, Theme};
pub use terminal::{append_output, split_lines, MAX_OUTPUT_LINES};
pub use plugin::{deliver, is_lua_plugin, PluginError, PluginManager};
pub use statusbar::{status_segments, SegmentKind, StatusSegment};

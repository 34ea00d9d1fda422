use std::sync::mpsc;
use tde::{is_lua_plugin, PluginManager};

#[test]
fn plugin_files_are_recognised_by_extension() {
    assert!(is_lua_plugin("hello.lua"));
    assert!(is_lua_plugin("..lua"));
    assert!(!is_lua_plugin(".lua"));
    assert!(!is_lua_plugin("lua"));
    assert!(!is_lua_plugin("notes.lua.bak"));
    assert!(!is_lua_plugin("script.LUA"));
}

#[test]
fn missing_hook_is_not_an_error() {
    let mut plugins = PluginManager::new().unwrap();
    assert!(plugins.call_hook("on_startup").is_ok());
}

#[test]
fn plugins_can_notify_through_the_api() {
    let mut plugins = PluginManager::new().unwrap();
    let (tx, rx) = mpsc::channel();
    plugins.register_api(tx).unwrap();
    plugins
        .run_plugin("function on_startup() tde.notify('hi from ' .. tde.version) end")
        .unwrap();
    plugins.call_hook("on_startup").unwrap();
    assert_eq!(rx.try_recv().unwrap(), "hi from 0.1.1");
}

#[test]
fn lua_errors_are_reported() {
    let mut plugins = PluginManager::new().unwrap();
    let err = plugins.run_plugin("this is not lua").unwrap_err();
    assert!(!err.message.is_empty());
    plugins.run_plugin("function on_startup() error('boom') end").unwrap();
    let err = plugins.call_hook("on_startup").unwrap_err();
    assert!(err.message.contains("boom"));
}

#[test]
fn hooks_run_in_every_plugin() {
    let mut plugins = PluginManager::new().unwrap();
    let (tx, rx) = mpsc::channel();
    plugins.register_api(tx).unwrap();
    plugins.run_plugin("function on_startup() tde.notify('A') end").unwrap();
    plugins.run_plugin("function on_startup() tde.notify('B') end").unwrap();
    plugins.run_plugin("function on_pane_focus() tde.notify('C') end").unwrap();
    plugins.call_hook("on_startup").unwrap();
    assert_eq!(rx.try_recv().unwrap(), "A");
    assert_eq!(rx.try_recv().unwrap(), "B");
    assert!(rx.try_recv().is_err());
    plugins.call_hook("on_pane_focus").unwrap();
    assert_eq!(rx.try_recv().unwrap(), "C");
    assert!(rx.try_recv().is_err());
}

#[test]
fn each_plugin_keeps_its_own_globals() {
    let mut plugins = PluginManager::new().unwrap();
    let (tx, rx) = mpsc::channel();
    plugins.register_api(tx).unwrap();
    plugins
        .run_plugin("greeting = 'one' function on_startup() tde.notify(greeting) end")
        .unwrap();
    plugins
        .run_plugin("greeting = 'two' function on_startup() tde.notify(greeting) end")
        .unwrap();
    plugins.call_hook("on_startup").unwrap();
    assert_eq!(rx.try_recv().unwrap(), "one");
    assert_eq!(rx.try_recv().unwrap(), "two");
}

#[test]
fn hooks_defined_before_a_failure_stay() {
    let mut plugins = PluginManager::new().unwrap();
    let (tx, rx) = mpsc::channel();
    plugins.register_api(tx).unwrap();
    let err = plugins
        .run_plugin("function on_startup() tde.notify('early') end error('late')")
        .unwrap_err();
    assert!(err.message.contains("late"));
    plugins.call_hook("on_startup").unwrap();
    assert_eq!(rx.try_recv().unwrap(), "early");
}

#[test]
fn a_failing_hook_stops_the_plugins_after_it() {
    let mut plugins = PluginManager::new().unwrap();
    let (tx, rx) = mpsc::channel();
    plugins.register_api(tx).unwrap();
    plugins.run_plugin("function on_startup() tde.notify('first') end").unwrap();
    plugins.run_plugin("function on_startup() error('broken') end").unwrap();
    plugins.run_plugin("function on_startup() tde.notify('third') end").unwrap();
    let err = plugins.call_hook("on_startup").unwrap_err();
    assert!(err.message.contains("broken"));
    assert_eq!(rx.try_recv().unwrap(), "first");
    assert!(rx.try_recv().is_err());
}

#[test]
fn notify_after_the_receiver_is_gone_is_no_error() {
    let mut plugins = PluginManager::new().unwrap();
    let (tx, rx) = mpsc::channel::<String>();
    plugins.register_api(tx).unwrap();
    drop(rx);
    plugins.run_plugin("function on_startup() tde.notify('nobody') end").unwrap();
    assert!(plugins.call_hook("on_startup").is_ok());
}

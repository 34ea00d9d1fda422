//! Lua plugins: a Lua state with the desktop's API, plugin scripts run in it (each with
//! globals of its own), and the event hooks that the scripts define.
use crate::text::same_text;
use mlua::{Function, Lua, Table, Value};
use std::sync::mpsc::Sender;
use vstd::prelude::*;

verus! {

#[verifier::external_type_specification]
#[verifier::external_body]
pub struct ExLua(Lua);

#[verifier::external_type_specification]
#[verifier::external_body]
pub struct ExFunction(Function);

#[verifier::external_type_specification]
#[verifier::external_body]
pub struct ExTable(Table);

/// A failure reported by Lua, with its message.
#[derive(Debug, Clone)]
pub struct PluginError {
    pub message: String,
}

/// Whether a file with the name `name` is a plugin: its extension, as `Path::extension`
/// documents it (the part after the last dot, where a leading dot alone makes none),
/// is `lua`.
pub open spec fn is_plugin_name(name: Seq<char>) -> bool {
    &&& name.len() >= 5
    &&& name.skip(name.len() - 4) == seq!['.', 'l', 'u', 'a']
}

/// Whether a file named `name` is a Lua plugin, by its extension.
pub fn is_lua_plugin(name: &str) -> (yes: bool)
    ensures
        yes == is_plugin_name(name@),
{
    let n = name.unicode_len();
    if n < 5 {
        return false;
    }
    let tail = name.substring_char(n - 4, n);
    proof {
        reveal_strlit(".lua");
    }
    let dot = tail.get_char(0) == '.';
    let l = tail.get_char(1) == 'l';
    let u = tail.get_char(2) == 'u';
    let a = tail.get_char(3) == 'a';
    assert(tail@ == name@.skip(name@.len() - 4));
    if dot && l && u && a {
        assert(tail@ =~= seq!['.', 'l', 'u', 'a']);
        true
    } else {
        false
    }
}

/// The string fields of a Lua table.
pub uninterp spec fn table_texts(table: Table) -> Map<Seq<char>, Seq<char>>;

/// The fields of a Lua table that hold notify functions, each with the channel its
/// function delivers into.
pub uninterp spec fn table_notifiers(table: Table) -> Map<Seq<char>, nat>;

/// Whether a Lua table has no metatable, so that setting a field of it is a raw set.
pub uninterp spec fn is_plain(table: Table) -> bool;

/// The channel a notify function made by `create_notify_function` delivers into.
pub uninterp spec fn notify_target(function: Function) -> nat;

/// The globals of a Lua state that this library set to tables, with those tables.
pub uninterp spec fn global_tables(lua: Lua) -> Map<Seq<char>, Table>;

/// The chunks of code this library handed to a Lua state to run, in order.
pub uninterp spec fn chunks_run(lua: Lua) -> Seq<Seq<char>>;

/// The functions this library called in a Lua state, in order.
pub uninterp spec fn functions_called(lua: Lua) -> Seq<Function>;

/// `Lua::new`: a Lua state with the safe standard libraries; no code has been run in it
/// and no function called.
#[verifier::external_body]
fn new_lua() -> (lua: Lua)
    ensures
        chunks_run(lua) == Seq::<Seq<char>>::empty(),
        functions_called(lua) == Seq::<Function>::empty(),
{
    Lua::new()
}

/// `Lua::create_table`: a new empty table without a metatable. It always succeeds: the
/// state has no memory limit, and mlua's allocator aborts the process where memory runs
/// out rather than report an error.
#[verifier::external_body]
fn create_table(lua: &Lua) -> (made: Result<Table, String>)
    ensures
        made is Ok,
        made is Ok ==> is_plain(made->Ok_0),
        made is Ok ==> table_texts(made->Ok_0).dom() == Set::<Seq<char>>::empty(),
        made is Ok ==> table_notifiers(made->Ok_0).dom() == Set::<Seq<char>>::empty(),
{
    lua.create_table().map_err(|e| e.to_string())
}

/// `Lua::create_function` for a function that takes a message and delivers it to `tx`
/// (through `deliver`). It always succeeds, for the reason given at `create_table`.
#[verifier::external_body]
fn create_notify_function(lua: &Lua, tx: Sender<String>) -> (function: Result<Function, String>)
    ensures
        function is Ok,
        function is Ok ==> notify_target(function->Ok_0) == crate::notifications::sender_channel(
            tx,
        ),
{
    lua.create_function(move |_, msg: String| Ok(deliver(&tx, msg))).map_err(|e| e.to_string())
}

/// `Table::set` with a notify function as the value. On a table without a metatable it
/// is a raw set, which always succeeds: the field then holds the function. On another
/// table a metamethod may run and decide; that case is left unsaid.
#[verifier::external_body]
fn set_function_field(table: &mut Table, key: &str, value: Function) -> (done: Result<(), String>)
    ensures
        is_plain(*old(table)) ==> done is Ok && is_plain(*final(table)) && table_notifiers(
            *final(table),
        ) == table_notifiers(*old(table)).insert(key@, notify_target(value)) && table_texts(
            *final(table),
        ) == table_texts(*old(table)).remove(key@),
{
    table.set(key, value).map_err(|e| e.to_string())
}

/// `Table::set` with a string as the value; as `set_function_field`, the field then
/// holds the string where the table has no metatable.
#[verifier::external_body]
fn set_text_field(table: &mut Table, key: &str, value: &str) -> (done: Result<(), String>)
    ensures
        is_plain(*old(table)) ==> done is Ok && is_plain(*final(table)) && table_texts(
            *final(table),
        ) == table_texts(*old(table)).insert(key@, value@) && table_notifiers(*final(table))
            == table_notifiers(*old(table)).remove(key@),
{
    table.set(key, value).map_err(|e| e.to_string())
}

/// `Table::set` on the globals (`Lua::globals`) with a table as the value. In a state
/// in which no code has run, the globals have no metatable, so the set is a raw one: it
/// succeeds and the global holds the table. Where code has run, it may have given the
/// globals a metatable whose metamethod decides; that case is left unsaid. This library
/// runs no chunk and calls no function here.
#[verifier::external_body]
fn set_global_table(lua: &mut Lua, key: &str, value: Table) -> (done: Result<(), String>)
    ensures
        chunks_run(*final(lua)) == chunks_run(*old(lua)),
        functions_called(*final(lua)) == functions_called(*old(lua)),
        chunks_run(*old(lua)).len() == 0 && functions_called(*old(lua)).len() == 0 ==> done is Ok
            && global_tables(*final(lua)) == global_tables(*old(lua)).insert(key@, value),
{
    lua.globals().set(key, value).map_err(|e| e.to_string())
}

/// `Table::set` of the field `__index` of `meta` to the globals (`Lua::globals`), so that
/// a table with `meta` as its metatable falls back to the globals for the names it lacks.
/// On a table without a metatable it is a raw set, which always succeeds.
#[verifier::external_body]
fn set_globals_fallback(lua: &Lua, meta: &mut Table) -> (done: Result<(), String>)
    ensures
        is_plain(*old(meta)) ==> done is Ok && is_plain(*final(meta)),
{
    meta.set("__index", lua.globals()).map_err(|e| e.to_string())
}

/// `Table::set_metatable` with `meta`: the table then has a metatable.
#[verifier::external_body]
fn set_metatable(table: &mut Table, meta: Table)
    ensures
        !is_plain(*final(table)),
{
    table.set_metatable(Some(meta));
}

/// `Chunk::exec` of `Lua::load(code)` with `env` as the chunk's environment, so that the
/// globals the code defines land in `env`: one more chunk run; the error message when it
/// fails. Left unsaid: whether it fails, and what else it changes, which depends on the
/// code.
#[verifier::external_body]
fn run_chunk_in(lua: &mut Lua, code: &str, env: &Table) -> (done: Result<(), String>)
    ensures
        chunks_run(*final(lua)) == chunks_run(*old(lua)).push(code@),
        functions_called(*final(lua)) == functions_called(*old(lua)),
{
    lua.load(code).set_environment(env.clone()).exec().map_err(|e| e.to_string())
}

/// The fields of `table`, as `Table::pairs` walks them (without metamethods): for each,
/// its key where that is a string (lossily decoded) and its value where that is a
/// function. Nothing is claimed of what the table holds, which is what Lua code put
/// there, nor of the order of the walk.
#[verifier::external_body]
fn table_entries(table: &Table) -> (entries: Vec<(Option<String>, Option<Function>)>) {
    table.pairs::<Value, Value>().map(|pair| match pair {
        Ok((key, value)) => (key.as_string().map(|k| k.to_string_lossy()), value.as_function().cloned()),
        Err(_) => (None, None),
    }).collect()
}

/// `Function::call` with no arguments and no results: one more call, of `function`;
/// the error message when the function fails. Left unsaid: whether it fails, and what
/// else it changes in the state, which depends on the function.
#[verifier::external_body]
fn call_function(lua: &mut Lua, function: &Function) -> (done: Result<(), String>)
    ensures
        functions_called(*final(lua)) == functions_called(*old(lua)).push(*function),
        chunks_run(*final(lua)) == chunks_run(*old(lua)),
{
    function.call::<()>(()).map_err(|e| e.to_string())
}

/// `Sender::send`: whether the message went into the channel, which fails only when
/// the receiving end is gone.
#[verifier::external_body]
fn send_message(tx: &Sender<String>, message: String) -> bool {
    tx.send(message).is_ok()
}

/// Delivers a message from a plugin into the notification channel; a closed channel
/// drops it.
pub fn deliver(tx: &Sender<String>, message: String) {
    let _ = send_message(tx, message);
}

fn lua_result<T>(result: Result<T, String>) -> (mapped: Result<T, PluginError>)
    ensures
        match result {
            Ok(v) => mapped == Ok::<T, PluginError>(v),
            Err(m) => mapped is Err && mapped->Err_0.message@ == m@,
        },
{
    match result {
        Ok(v) => Ok(v),
        Err(message) => Err(PluginError { message }),
    }
}

/// The hooks of one plugin: its functions with their names.
pub open spec fn hooks_view(hooks: Seq<(String, Function)>) -> Seq<(Seq<char>, Function)> {
    hooks.map_values(|e: (String, Function)| (e.0@, e.1))
}

/// The fields of a table walk that have both a string key and a function value, in the
/// order of the walk, last first.
pub open spec fn named_functions(entries: Seq<(Option<String>, Option<Function>)>) -> Seq<(String, Function)>
    decreases entries.len(),
{
    if entries.len() == 0 {
        Seq::empty()
    } else {
        let here = match entries.last() {
            (Some(name), Some(f)) => seq![(name, f)],
            _ => Seq::empty(),
        };
        here + named_functions(entries.drop_last())
    }
}

/// The function of one plugin named `hook`, the first such where there are several.
pub open spec fn hook_of(hooks: Seq<(Seq<char>, Function)>, hook: Seq<char>) -> Option<Function>
    decreases hooks.len(),
{
    if hooks.len() == 0 {
        None
    } else {
        match hook_of(hooks.drop_last(), hook) {
            Some(f) => Some(f),
            None => if hooks.last().0 == hook {
                Some(hooks.last().1)
            } else {
                None
            },
        }
    }
}

/// The calls that the hook `hook` makes across `plugins`: in plugin order, the function
/// named `hook` of each plugin that has one.
pub open spec fn hook_calls(plugins: Seq<Seq<(Seq<char>, Function)>>, hook: Seq<char>) -> Seq<Function>
    decreases plugins.len(),
{
    if plugins.len() == 0 {
        Seq::empty()
    } else {
        let before = hook_calls(plugins.drop_last(), hook);
        match hook_of(plugins.last(), hook) {
            Some(f) => before.push(f),
            None => before,
        }
    }
}

/// Once the first `k` hooks of a plugin have a function named `hook`, the plugin's
/// function of that name is that one.
proof fn lemma_hook_of_prefix(hooks: Seq<(Seq<char>, Function)>, hook: Seq<char>, k: int)
    requires
        0 <= k <= hooks.len(),
        hook_of(hooks.take(k), hook) is Some,
    ensures
        hook_of(hooks, hook) == hook_of(hooks.take(k), hook),
    decreases hooks.len(),
{
    if k == hooks.len() {
        assert(hooks.take(k) =~= hooks);
    } else {
        assert(hooks.drop_last().take(k) =~= hooks.take(k));
        lemma_hook_of_prefix(hooks.drop_last(), hook, k);
    }
}

/// The calls a hook makes across the first `k` plugins are no more than across all.
proof fn lemma_hook_calls_prefix(plugins: Seq<Seq<(Seq<char>, Function)>>, hook: Seq<char>, k: int)
    requires
        0 <= k <= plugins.len(),
    ensures
        hook_calls(plugins.take(k), hook).len() <= hook_calls(plugins, hook).len(),
    decreases plugins.len(),
{
    if k == plugins.len() {
        assert(plugins.take(k) =~= plugins);
    } else {
        assert(plugins.drop_last().take(k) =~= plugins.take(k));
        lemma_hook_calls_prefix(plugins.drop_last(), hook, k);
    }
}

/// The position of the function named `hook` among `hooks`, the first where there are
/// several.
fn find_hook(hooks: &Vec<(String, Function)>, hook: &str) -> (found: Option<usize>)
    ensures
        match found {
            Some(j) => j < hooks.len() && hook_of(hooks_view(hooks@), hook@) == Some(hooks@[j as int].1),
            None => hook_of(hooks_view(hooks@), hook@) is None,
        },
{
    let ghost all = hooks_view(hooks@);
    let mut j: usize = 0;
    while j < hooks.len()
        invariant
            j <= hooks.len(),
            all == hooks_view(hooks@),
            hook_of(all.take(j as int), hook@) is None,
        decreases hooks.len() - j,
    {
        assert(all.take(j + 1).drop_last() =~= all.take(j as int));
        if same_text(&hooks[j].0, hook) {
            assert(hook_of(all.take(j + 1), hook@) == Some(hooks@[j as int].1));
            proof {
                lemma_hook_of_prefix(all, hook@, j + 1);
            }
            return Some(j);
        }
        j = j + 1;
    }
    assert(all.take(j as int) =~= all);
    None
}

/// The fields of a table walk that have both a string key and a function value.
fn keep_named_functions(entries: Vec<(Option<String>, Option<Function>)>) -> (kept: Vec<(String, Function)>)
    ensures
        kept@ == named_functions(entries@),
{
    let ghost all = entries@;
    let mut rest = entries;
    let mut kept: Vec<(String, Function)> = Vec::new();
    while rest.len() > 0
        invariant
            named_functions(all) == kept@ + named_functions(rest@),
        decreases rest.len(),
    {
        let ghost before = rest@;
        match rest.pop() {
            Some(entry) => {
                assert(rest@ == before.drop_last());
                match entry {
                    (Some(name), Some(f)) => {
                        kept.push((name, f));
                    },
                    _ => {},
                }
                assert(named_functions(all) == kept@ + named_functions(rest@));
            },
            None => {},
        }
    }
    assert(named_functions(rest@) =~= Seq::<(String, Function)>::empty());
    assert(kept@ + Seq::<(String, Function)>::empty() =~= kept@);
    kept
}

/// A Lua state in which plugins run, with the hooks of each plugin run so far.
pub struct PluginManager {
    lua: Lua,
    plugins: Vec<Vec<(String, Function)>>,
}

/// The version the API tells plugins, as `tde.version`.
pub open spec fn api_version() -> Seq<char> {
    seq!['0', '.', '1', '.', '1']
}

impl PluginManager {
    /// The chunks of plugin code run in the manager's state, in order.
    pub closed spec fn plugins_run(&self) -> Seq<Seq<char>> {
        chunks_run(self.lua)
    }

    /// The hook functions called in the manager's state, in order.
    pub closed spec fn hooks(&self) -> Seq<Function> {
        functions_called(self.lua)
    }

    /// For each plugin run, in order, the functions it defined with their names: its hooks.
    pub closed spec fn plugin_hooks(&self) -> Seq<Seq<(Seq<char>, Function)>> {
        self.plugins@.map_values(|p: Vec<(String, Function)>| hooks_view(p@))
    }

    /// Whether the API is in place: the global table `tde` has the field `version` set to
    /// the version string and the field `notify` set to a function that delivers into
    /// the channel `channel`.
    pub closed spec fn api_installed(&self, channel: nat) -> bool {
        let globals = global_tables(self.lua);
        &&& globals.contains_key(seq!['t', 'd', 'e'])
        &&& table_texts(globals[seq!['t', 'd', 'e']]).contains_key(seq!['v', 'e', 'r', 's', 'i', 'o', 'n'])
        &&& table_texts(globals[seq!['t', 'd', 'e']])[seq!['v', 'e', 'r', 's', 'i', 'o', 'n']] == api_version()
        &&& table_notifiers(globals[seq!['t', 'd', 'e']]).contains_key(seq!['n', 'o', 't', 'i', 'f', 'y'])
        &&& table_notifiers(globals[seq!['t', 'd', 'e']])[seq!['n', 'o', 't', 'i', 'f', 'y']] == channel
    }

    /// A manager with a fresh Lua state, in which no plugin has run and no hook been
    /// called; it always succeeds.
    pub fn new() -> (manager: Result<PluginManager, PluginError>)
        ensures
            manager matches Ok(m) && m.plugins_run() == Seq::<Seq<char>>::empty()
                && m.hooks() == Seq::<Function>::empty()
                && m.plugin_hooks() == Seq::<Seq<(Seq<char>, Function)>>::empty(),
    {
        let m = PluginManager { lua: new_lua(), plugins: Vec::new() };
        assert(m.plugin_hooks() =~= Seq::<Seq<(Seq<char>, Function)>>::empty());
        Ok(m)
    }

    /// Registers the API under the global table `tde`: `tde.notify(message)` sends
    /// `message` into `notif_tx`, and `tde.version` is the version string. On a manager
    /// in which no plugin has run and no hook been called, it succeeds. The first failure
    /// of Lua is returned, and nothing after it is tried. No plugin code runs and no hook
    /// is called.
    pub fn register_api(&mut self, notif_tx: Sender<String>) -> (done: Result<(), PluginError>)
        ensures
            old(self).plugins_run().len() == 0 && old(self).hooks().len() == 0 ==> done is Ok
                && final(self).api_installed(crate::notifications::sender_channel(notif_tx)),
            final(self).plugins_run() == old(self).plugins_run(),
            final(self).hooks() == old(self).hooks(),
            final(self).plugin_hooks() == old(self).plugin_hooks(),
    {
        proof {
            reveal_strlit("notify");
            reveal_strlit("version");
            reveal_strlit("0.1.1");
            reveal_strlit("tde");
            assert("notify"@ =~= seq!['n', 'o', 't', 'i', 'f', 'y']);
            assert("version"@ =~= seq!['v', 'e', 'r', 's', 'i', 'o', 'n']);
            assert("0.1.1"@ =~= api_version());
            assert("tde"@ =~= seq!['t', 'd', 'e']);
        }
        let ghost channel = crate::notifications::sender_channel(notif_tx);
        let mut tde = lua_result(create_table(&self.lua))?;
        let notify = lua_result(create_notify_function(&self.lua, notif_tx))?;
        lua_result(set_function_field(&mut tde, "notify", notify))?;
        lua_result(set_text_field(&mut tde, "version", "0.1.1"))?;
        let ghost installed = tde;
        lua_result(set_global_table(&mut self.lua, "tde", tde))?;
        proof {
            if chunks_run(old(self).lua).len() == 0 && functions_called(old(self).lua).len() == 0 {
                assert(global_tables(self.lua)[seq!['t', 'd', 'e']] == installed);
                assert(table_notifiers(installed)[seq!['n', 'o', 't', 'i', 'f', 'y']] == channel);
            }
        }
        Ok(())
    }

    /// Runs the code of one plugin in the manager's state, with globals of its own: the
    /// names the code defines land in a table of the plugin's, which falls back to the
    /// shared globals (the API, the standard library) for the names it lacks. The
    /// functions the plugin defined become its hooks, also where the code failed partway
    /// (what it defined before the failure stays); the error carries Lua's message.
    pub fn run_plugin(&mut self, code: &str) -> (done: Result<(), PluginError>)
        ensures
            final(self).plugins_run() == old(self).plugins_run().push(code@),
            final(self).hooks() == old(self).hooks(),
            final(self).plugin_hooks().len() == old(self).plugin_hooks().len() + 1,
            final(self).plugin_hooks().drop_last() == old(self).plugin_hooks(),
    {
        let mut env = lua_result(create_table(&self.lua))?;
        let mut meta = lua_result(create_table(&self.lua))?;
        lua_result(set_globals_fallback(&self.lua, &mut meta))?;
        set_metatable(&mut env, meta);
        let ran = run_chunk_in(&mut self.lua, code, &env);
        let hooks = keep_named_functions(table_entries(&env));
        self.plugins.push(hooks);
        assert(self.plugin_hooks().drop_last() =~= old(self).plugin_hooks());
        lua_result(ran)
    }

    /// Calls the hook `hook` (such as `on_startup`) in every plugin, in the order the
    /// plugins ran: the function named `hook` of each plugin that defined one is called
    /// once. The first failure is returned, and the plugins after it are not called.
    /// Where no plugin defined the hook there is nothing to do: it succeeds.
    pub fn call_hook(&mut self, hook: &str) -> (done: Result<(), PluginError>)
        ensures
            final(self).plugins_run() == old(self).plugins_run(),
            final(self).plugin_hooks() == old(self).plugin_hooks(),
            done is Ok ==> final(self).hooks() == old(self).hooks() + hook_calls(
                old(self).plugin_hooks(),
                hook@,
            ),
            exists|n: int|
                0 <= n <= old(self).plugin_hooks().len() && final(self).hooks() == old(self).hooks()
                    + hook_calls(#[trigger] old(self).plugin_hooks().take(n), hook@),
            done is Err ==> final(self).hooks().len() > old(self).hooks().len(),
            hook_calls(old(self).plugin_hooks(), hook@).len() == 0 ==> done is Ok && final(self).hooks()
                == old(self).hooks(),
    {
        let ghost start = self.plugin_hooks();
        let ghost calls_before = self.hooks();
        let n = self.plugins.len();
        let mut i: usize = 0;
        assert(start.take(0) =~= Seq::<Seq<(Seq<char>, Function)>>::empty());
        assert(calls_before + Seq::<Function>::empty() =~= calls_before);
        while i < n
            invariant
                i <= n,
                n == self.plugins.len(),
                start == self.plugin_hooks(),
                start == old(self).plugin_hooks(),
                start.len() == n,
                chunks_run(self.lua) == old(self).plugins_run(),
                calls_before == old(self).hooks(),
                functions_called(self.lua) == calls_before + hook_calls(start.take(i as int), hook@),
            decreases n - i,
        {
            let ghost here = self.plugins@[i as int];
            assert(start[i as int] == hooks_view(here@));
            assert(start.take(i + 1).drop_last() =~= start.take(i as int));
            assert(start.take(i + 1).last() == start[i as int]);
            match find_hook(&self.plugins[i], hook) {
                Some(j) => {
                    let result = call_function(&mut self.lua, &self.plugins[i][j].1);
                    assert(hooks_view(here@)[j as int].1 == here@[j as int].1);
                    assert(functions_called(self.lua) =~= calls_before + hook_calls(
                        start.take(i + 1),
                        hook@,
                    ));
                    if result.is_err() {
                        proof {
                            lemma_hook_calls_prefix(start, hook@, i + 1);
                            assert(self.hooks() == old(self).hooks() + hook_calls(
                                old(self).plugin_hooks().take(i + 1),
                                hook@,
                            ));
                        }
                        return lua_result(result);
                    }
                },
                None => {},
            }
            i = i + 1;
        }
        assert(start.take(n as int) =~= start);
        assert(self.hooks() == old(self).hooks() + hook_calls(old(self).plugin_hooks().take(n as int), hook@));
        proof {
            if hook_calls(start, hook@).len() == 0 {
                assert(self.hooks() =~= old(self).hooks());
            }
        }
        Ok(())
    }
}

} // verus!

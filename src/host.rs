//! The plugin host: one interpreter generation with its handler table. It
//! loads the plugins, calls the handlers of each event with their own copy of
//! the arguments, and survives any script failure.

use crate::engine::{
    attach_channel, bind_session, has_channel, script_channel, unbind_session,
    c_safe, describe_top, ensure_room, load_chunk_file, load_chunk_text, lua_compiles, lua_room,
    lua_stack, pop_values, protected_call, push_nil, push_record, push_registry_field,
    push_registry_ref, push_text, set_record_field, stack_top, store_registry_field,
    take_registrations,
};
use crate::events::{event_args, Arg, Event, User};
use crate::handlers::{
    event_plan, handlers_for, Dispatch, HandlerRef, Invocation, Runtime, RuntimeView,
};
use vstd::prelude::*;

verus! {

/// A plugin file to load: its path, and the name it is called with.
pub struct PluginFile {
    pub path: String,
    pub name: String,
}

/// How one script call ended.
pub struct CallReport {
    pub handler: HandlerRef,
    /// How many arguments the handler was called with.
    pub nargs: usize,
    /// `None` when the call succeeded, else the error with its traceback.
    pub error: Option<String>,
}

/// How loading one plugin ended.
pub struct LoadReport {
    pub name: String,
    /// `None` when the plugin loaded and ran, else the error.
    pub error: Option<String>,
}

/// Why a generation could not be set up.
pub enum SetupError {
    /// The message handler does not compile; the compiler's message.
    Handler(String),
    /// The interpreter's stack cannot grow any more.
    NoRoom,
}

/// One interpreter generation and its handler table.
pub struct PluginManager {
    lua: lua::State,
    runtime: Runtime,
}

/// The message handler: the error with a traceback.
pub open spec fn handler_source() -> Seq<char> {
    "local msg = ...; return debug.traceback(msg, 2)"@
}

/// Whether every registration of `log` was made in generation `g`.
pub open spec fn of_generation(log: Seq<(Seq<char>, HandlerRef, u64)>, g: u64) -> bool {
    forall|i: int| 0 <= i < log.len() ==> (#[trigger] log[i]).2 == g
}

/// Whether `new_log` is `old_log` followed by registrations made in
/// generation `g`.
pub open spec fn grows(
    old_log: Seq<(Seq<char>, HandlerRef, u64)>,
    new_log: Seq<(Seq<char>, HandlerRef, u64)>,
    g: u64,
) -> bool {
    &&& old_log.len() <= new_log.len()
    &&& new_log.subrange(0, old_log.len() as int) == old_log
    &&& forall|i: int| old_log.len() <= i < new_log.len() ==> (#[trigger] new_log[i]).2 == g
}

proof fn lemma_grows_trans(
    a: Seq<(Seq<char>, HandlerRef, u64)>,
    b: Seq<(Seq<char>, HandlerRef, u64)>,
    c: Seq<(Seq<char>, HandlerRef, u64)>,
    g: u64,
)
    requires
        grows(a, b, g),
        grows(b, c, g),
    ensures
        grows(a, c, g),
{
    assert(c.subrange(0, a.len() as int) =~= c.subrange(0, b.len() as int).subrange(0, a.len() as int));
    assert forall|i: int| a.len() <= i < c.len() implies (#[trigger] c[i]).2 == g by {
        if i < b.len() {
            assert(c[i] == c.subrange(0, b.len() as int)[i]);
        }
    }
}

proof fn lemma_grows_refl(a: Seq<(Seq<char>, HandlerRef, u64)>, g: u64)
    ensures
        grows(a, a, g),
{
    assert(a.subrange(0, a.len() as int) =~= a);
}

proof fn lemma_grows_keeps_generation(
    a: Seq<(Seq<char>, HandlerRef, u64)>,
    b: Seq<(Seq<char>, HandlerRef, u64)>,
    g: u64,
)
    requires
        grows(a, b, g),
        of_generation(a, g),
    ensures
        of_generation(b, g),
{
    assert forall|i: int| 0 <= i < b.len() implies (#[trigger] b[i]).2 == g by {
        if i < a.len() {
            assert(b[i] == b.subrange(0, a.len() as int)[i]);
        }
    }
}

/// `after` holds the values of `before`, with at least as much room.
pub open spec fn stack_kept(before: lua::State, after: lua::State) -> bool {
    &&& script_channel(after) == script_channel(before)
    &&& lua_stack(after) == lua_stack(before)
    &&& lua_room(after) >= lua_room(before)
}

/// Whether `s` can be handed to the interpreter as a C string.
pub fn is_c_safe(s: &str) -> (r: bool)
    ensures
        r == c_safe(s@),
{
    let n = s.unicode_len();
    let mut i: usize = 0;
    while i < n
        invariant
            n == s@.len(),
            i <= n,
            forall|j: int| 0 <= j < i ==> s@[j] != '\0',
        decreases n - i,
    {
        if s.get_char(i) == '\0' {
            return false;
        }
        i = i + 1;
    }
    true
}

/// Installs the message handler that adds a traceback to script errors.
fn install_error_handler(st: &mut lua::State) -> (r: Result<(), SetupError>)
    ensures
        r is Ok ==> lua_compiles(handler_source()),
        r matches Err(SetupError::Handler(_)) ==> !lua_compiles(handler_source()),
        !lua_compiles(handler_source()) ==> r is Err,
        lua_stack(*final(st)) == lua_stack(*old(st)),
        script_channel(*final(st)) == script_channel(*old(st)),
{
    let source = "local msg = ...; return debug.traceback(msg, 2)";
    proof {
        reveal_strlit("local msg = ...; return debug.traceback(msg, 2)");
        reveal_strlit("error_handler");
    }
    if !ensure_room(st, 2) {
        return Err(SetupError::NoRoom);
    }
    if !load_chunk_text(st, source) {
        let e = describe_top(st);
        pop_values(st, 1);
        return Err(SetupError::Handler(e));
    }
    store_registry_field(st, "error_handler");
    Ok(())
}

/// Whether `reports` are the calls of the handlers `hs`, one each, in order,
/// each with `nargs` arguments.
pub open spec fn reports_match(reports: Seq<CallReport>, hs: Seq<HandlerRef>, nargs: int) -> bool {
    &&& reports.len() == hs.len()
    &&& forall|i: int|
        0 <= i < hs.len() ==> (#[trigger] reports[i]).handler == hs[i] && reports[i].nargs == nargs
}

/// Whether `loads` report on `plugins`, one each, in order.
pub open spec fn loads_match(loads: Seq<LoadReport>, plugins: Seq<PluginFile>) -> bool {
    &&& loads.len() == plugins.len()
    &&& forall|i: int| 0 <= i < plugins.len() ==> (#[trigger] loads[i]).name@ == plugins[i].name@
}

/// What a dispatch did.
pub struct DispatchReport {
    /// The handler calls, in order.
    pub calls: Vec<CallReport>,
    /// The protocol lines the handlers asked to send to the bound session.
    pub sent: Vec<String>,
}

/// What a reload did.
pub struct ReloadReport {
    pub loads: Vec<LoadReport>,
    /// The registrations of the new generation once its plugins had loaded.
    pub loaded: Ghost<Seq<(Seq<char>, HandlerRef, u64)>>,
    /// The calls of the handlers of the event that announces the reload.
    pub reloaded: Vec<CallReport>,
    /// The protocol lines those handlers asked to send to the bound session.
    pub sent: Vec<String>,
}

impl PluginManager {
    /// The model of the handler table.
    pub closed spec fn table(&self) -> RuntimeView {
        self.runtime@
    }

    /// Whether a session is bound, so that the natives may act on it.
    pub closed spec fn session_bound(&self) -> bool {
        script_channel(self.lua) == Some(true)
    }

    /// The first generation, on a fresh interpreter that has its standard
    /// library and the `irc` module: installs the message handler and loads
    /// the plugins in the order given. A plugin that fails is reported and
    /// the others are loaded all the same. Without plugins the table is
    /// empty. Fails when the message handler does not compile, or when the
    /// interpreter's stack cannot grow.
    pub fn new(st: lua::State, plugins: &Vec<PluginFile>) -> (r: Result<
        (PluginManager, Vec<LoadReport>),
        SetupError,
    >)
        ensures
            r is Ok ==> lua_compiles(handler_source()),
            !lua_compiles(handler_source()) ==> r is Err,
            r matches Err(SetupError::Handler(_)) ==> !lua_compiles(handler_source()),
            r matches Ok((h, loads)) ==> h.table().generation == 0 && loads_match(loads@, plugins@)
                && of_generation(h.table().log, 0) && (plugins@.len() == 0 ==> h.table().log.len()
                == 0) && !h.session_bound(),
    {
        let mut host = PluginManager { lua: st, runtime: Runtime::new() };
        host.release_session();
        match install_error_handler(&mut host.lua) {
            Err(e) => Err(e),
            Ok(()) => {
                let ghost before = host.runtime@.log;
                let loads = host.load_plugins(plugins);
                proof {
                    lemma_grows_keeps_generation(before, host.runtime@.log, 0);
                }
                Ok((host, loads))
            },
        }
    }

    /// Loads and runs one plugin, with its name as its single argument.
    fn load_plugin(&mut self, p: &PluginFile) -> (r: LoadReport)
        ensures
            r.name@ == p.name@,
            final(self).table().generation == old(self).table().generation,
            grows(old(self).table().log, final(self).table().log, old(self).table().generation),
            stack_kept(old(self).lua, final(self).lua),
    {
        let name = p.name.as_str().to_owned();
        proof {
            lemma_grows_refl(self.runtime@.log, self.runtime@.generation);
        }
        if !is_c_safe(p.path.as_str()) {
            return LoadReport { name, error: Some(String::from_str("path holds a NUL character")) };
        }
        if !ensure_room(&mut self.lua, 4) {
            return LoadReport { name, error: Some(String::from_str("stack overflow")) };
        }
        proof {
            reveal_strlit("error_handler");
        }
        push_registry_field(&mut self.lua, "error_handler");
        let handler_index = stack_top(&mut self.lua);
        let error = if !load_chunk_file(&mut self.lua, p.path.as_str()) {
            let e = describe_top(&mut self.lua);
            pop_values(&mut self.lua, 1);
            Some(e)
        } else {
            push_text(&mut self.lua, p.name.as_str());
            if protected_call(&mut self.lua, 1, handler_index) {
                None
            } else {
                let e = describe_top(&mut self.lua);
                pop_values(&mut self.lua, 1);
                Some(e)
            }
        };
        pop_values(&mut self.lua, 1);
        assert(lua_stack(self.lua) =~= lua_stack(old(self).lua));
        self.absorb_registrations();
        LoadReport { name, error }
    }

    /// Loads the plugins in the order given; each failure is reported and
    /// skipped.
    fn load_plugins(&mut self, plugins: &Vec<PluginFile>) -> (r: Vec<LoadReport>)
        ensures
            loads_match(r@, plugins@),
            final(self).table().generation == old(self).table().generation,
            grows(old(self).table().log, final(self).table().log, old(self).table().generation),
            plugins@.len() == 0 ==> final(self).table().log == old(self).table().log,
            script_channel(final(self).lua) == script_channel(old(self).lua),
    {
        let mut reports: Vec<LoadReport> = Vec::new();
        let mut i: usize = 0;
        proof {
            lemma_grows_refl(self.runtime@.log, self.runtime@.generation);
        }
        while i < plugins.len()
            invariant
                i <= plugins.len(),
                reports@.len() == i,
                forall|j: int| 0 <= j < i ==> (#[trigger] reports@[j]).name@ == plugins@[j].name@,
                self.runtime@.generation == old(self).runtime@.generation,
                grows(old(self).runtime@.log, self.runtime@.log, self.runtime@.generation),
                i == 0 ==> self.runtime@.log == old(self).runtime@.log,
                script_channel(self.lua) == script_channel(old(self).lua),
            decreases plugins.len() - i,
        {
            let ghost before = self.runtime@.log;
            let rep = self.load_plugin(&plugins[i]);
            proof {
                lemma_grows_trans(old(self).runtime@.log, before, self.runtime@.log, self.runtime@.generation);
            }
            reports.push(rep);
            i = i + 1;
        }
        reports
    }

    /// Replaces the whole generation: the interpreter `fresh` (with its
    /// standard library and the `irc` module) takes the place of the old
    /// one, the handler table starts empty, the plugins are loaded anew, and
    /// the `RELOADED` event, without arguments, is dispatched once to the
    /// handlers of the new generation, with the session bound for that
    /// dispatch only. Nothing of the old generation is kept:
    /// every registration in the table afterwards, whatever the result, was
    /// made in the new generation.
    pub fn reload_plugins(&mut self, fresh: lua::State, plugins: &Vec<PluginFile>) -> (r: Result<
        ReloadReport,
        SetupError,
    >)
        requires
            old(self).table().generation < u64::MAX,
        ensures
            final(self).table().generation == old(self).table().generation + 1,
            of_generation(final(self).table().log, final(self).table().generation),
            r is Ok ==> lua_compiles(handler_source()),
            !lua_compiles(handler_source()) ==> r is Err,
            r matches Err(SetupError::Handler(_)) ==> !lua_compiles(handler_source()),
            r is Err ==> final(self).table().log.len() == 0,
            !final(self).session_bound(),
            r matches Ok(rep) ==> loads_match(rep.loads@, plugins@),
            r matches Ok(rep) ==> grows(
                rep.loaded@,
                final(self).table().log,
                final(self).table().generation,
            ) && of_generation(rep.loaded@, final(self).table().generation) && (plugins@.len() == 0
                ==> rep.loaded@.len() == 0) && reports_match(
                rep.reloaded@,
                handlers_for(rep.loaded@, "RELOADED"@),
                0,
            ),
    {
        self.lua = fresh;
        self.release_session();
        self.runtime.reload();
        let ghost g = self.runtime@.generation;
        if let Err(e) = install_error_handler(&mut self.lua) {
            return Err(e);
        }
        let ghost start = self.runtime@.log;
        let loads = self.load_plugins(plugins);
        let ghost mid = self.runtime@;
        proof {
            lemma_grows_keeps_generation(start, mid.log, g);
        }
        let mut sent: Vec<String> = Vec::new();
        let reloaded = match self.runtime.prepare_reloaded() {
            None => {
                proof {
                    lemma_grows_refl(self.runtime@.log, g);
                }
                let v: Vec<CallReport> = Vec::new();
                assert(handlers_for(mid.log, "RELOADED"@) =~= Seq::<HandlerRef>::empty());
                assert(v@ =~= Seq::<CallReport>::empty());
                assert(reports_match(Seq::<CallReport>::empty(), Seq::<HandlerRef>::empty(), 0));
                v
            },
            Some(d) => {
                assert(crate::events::args_view(d.args@).len() == d.args@.len());
                bind_session(&mut self.lua);
                let v = self.run(&d);
                sent = unbind_session(&mut self.lua);
                assert(d.handlers@ == handlers_for(mid.log, "RELOADED"@));
                assert(reports_match(v@, handlers_for(mid.log, "RELOADED"@), 0));
                v
            },
        };
        proof {
            lemma_grows_keeps_generation(mid.log, self.runtime@.log, g);
        }
        let rep = ReloadReport { loads, loaded: Ghost(mid.log), reloaded, sent };
        Ok(rep)
    }

    /// Makes sure the interpreter has a script channel with no session bound;
    /// lines queued for an earlier binding are dropped.
    fn release_session(&mut self)
        ensures
            script_channel(final(self).lua) == Some(false),
            lua_stack(final(self).lua) == lua_stack(old(self).lua),
            lua_room(final(self).lua) == lua_room(old(self).lua),
            final(self).runtime == old(self).runtime,
    {
        if has_channel(&mut self.lua) {
            let _stale = unbind_session(&mut self.lua);
        } else {
            attach_channel(&mut self.lua);
        }
    }

    /// The current generation.
    pub fn generation(&self) -> (r: u64)
        ensures
            r == self.table().generation,
    {
        self.runtime.generation()
    }

    /// Adds to the handler table what the scripts registered since the last
    /// look, in the order in which they did.
    fn absorb_registrations(&mut self)
        ensures
            final(self).table().generation == old(self).table().generation,
            grows(old(self).table().log, final(self).table().log, old(self).table().generation),
            stack_kept(old(self).lua, final(self).lua),
    {
        let regs = take_registrations(&mut self.lua);
        proof {
            lemma_grows_refl(self.runtime@.log, self.runtime@.generation);
        }
        let mut i: usize = 0;
        while i < regs.len()
            invariant
                i <= regs.len(),
                self.runtime@.generation == old(self).runtime@.generation,
                grows(old(self).runtime@.log, self.runtime@.log, self.runtime@.generation),
                stack_kept(old(self).lua, self.lua),
            decreases regs.len() - i,
        {
            let ghost before = self.runtime@;
            self.runtime.add_handler(regs[i].0.as_str(), regs[i].1);
            proof {
                assert(self.runtime@.log.subrange(0, before.log.len() as int) =~= before.log);
                lemma_grows_trans(old(self).runtime@.log, before.log, self.runtime@.log, before.generation);
            }
            i = i + 1;
        }
    }

    /// Pushes a copy of the sender record.
    fn push_user(&mut self, u: &User)
        requires
            lua_room(old(self).lua) >= 3,
        ensures
            final(self).table() == old(self).table(),
            script_channel(final(self).lua) == script_channel(old(self).lua),
            lua_stack(final(self).lua) == lua_stack(old(self).lua).push(true),
            lua_room(final(self).lua) + 1 == lua_room(old(self).lua),
    {
        proof {
            reveal_strlit("raw");
            reveal_strlit("nick");
            reveal_strlit("user");
            reveal_strlit("host");
        }
        push_record(&mut self.lua, 4);
        push_text(&mut self.lua, u.raw.as_str());
        set_record_field(&mut self.lua, "raw");
        assert(lua_stack(self.lua) =~= lua_stack(old(self).lua).push(true));
        push_text(&mut self.lua, u.nick.as_str());
        set_record_field(&mut self.lua, "nick");
        assert(lua_stack(self.lua) =~= lua_stack(old(self).lua).push(true));
        match &u.user {
            None => push_nil(&mut self.lua),
            Some(t) => push_text(&mut self.lua, t.as_str()),
        }
        set_record_field(&mut self.lua, "user");
        assert(lua_stack(self.lua) =~= lua_stack(old(self).lua).push(true));
        match &u.host {
            None => push_nil(&mut self.lua),
            Some(t) => push_text(&mut self.lua, t.as_str()),
        }
        set_record_field(&mut self.lua, "host");
        assert(lua_stack(self.lua) =~= lua_stack(old(self).lua).push(true));
    }

    /// Pushes the arguments of one call, records as fresh tables.
    fn push_args(&mut self, args: &Vec<Arg>)
        requires
            lua_room(old(self).lua) >= args@.len() + 2,
        ensures
            final(self).table() == old(self).table(),
            script_channel(final(self).lua) == script_channel(old(self).lua),
            lua_stack(final(self).lua).len() == lua_stack(old(self).lua).len() + args@.len(),
            lua_stack(final(self).lua).subrange(0, lua_stack(old(self).lua).len() as int)
                == lua_stack(old(self).lua),
            lua_room(final(self).lua) + args@.len() == lua_room(old(self).lua),
    {
        let mut i: usize = 0;
        while i < args.len()
            invariant
                i <= args.len(),
                self.table() == old(self).table(),
                lua_room(old(self).lua) >= args@.len() + 2,
                script_channel(self.lua) == script_channel(old(self).lua),
                lua_stack(self.lua).len() == lua_stack(old(self).lua).len() + i,
                lua_stack(self.lua).subrange(0, lua_stack(old(self).lua).len() as int)
                    == lua_stack(old(self).lua),
                lua_room(self.lua) + i == lua_room(old(self).lua),
            decreases args.len() - i,
        {
            let ghost before = lua_stack(self.lua);
            assert(lua_room(self.lua) >= 3);
            match &args[i] {
                Arg::Nil => push_nil(&mut self.lua),
                Arg::Text(t) => push_text(&mut self.lua, t.as_str()),
                Arg::Sender(u) => self.push_user(u),
            }
            assert(lua_stack(self.lua).subrange(0, lua_stack(old(self).lua).len() as int)
                =~= before.subrange(0, lua_stack(old(self).lua).len() as int));
            i = i + 1;
        }
    }

    /// Calls one handler with the message handler installed; a failure is
    /// reported and leaves the stack as it found it.
    fn call(&mut self, inv: &Invocation) -> (r: CallReport)
        requires
            script_channel(old(self).lua) == Some(true),
        ensures
            r.handler == inv.handler,
            r.nargs == inv.args@.len(),
            final(self).table().generation == old(self).table().generation,
            grows(old(self).table().log, final(self).table().log, old(self).table().generation),
            stack_kept(old(self).lua, final(self).lua),
    {
        let n = inv.args.len();
        proof {
            lemma_grows_refl(self.runtime@.log, self.runtime@.generation);
        }
        if n > 0x7fff_fff0 || !ensure_room(&mut self.lua, (n + 4) as i32) {
            return CallReport {
                handler: inv.handler,
                nargs: n,
                error: Some(String::from_str("stack overflow")),
            };
        }
        let ghost base = self.lua;
        proof {
            reveal_strlit("error_handler");
        }
        push_registry_field(&mut self.lua, "error_handler");
        let handler_index = stack_top(&mut self.lua);
        push_registry_ref(&mut self.lua, inv.handler);
        self.push_args(&inv.args);
        let error = if protected_call(&mut self.lua, n as i32, handler_index) {
            None
        } else {
            let e = describe_top(&mut self.lua);
            pop_values(&mut self.lua, 1);
            Some(e)
        };
        assert(lua_stack(self.lua) =~= lua_stack(base).push(false));
        pop_values(&mut self.lua, 1);
        assert(lua_stack(self.lua) =~= lua_stack(old(self).lua));
        self.absorb_registrations();
        CallReport { handler: inv.handler, nargs: n, error }
    }

    /// Calls every handler of a prepared dispatch, in order. A handler that
    /// fails is reported and the next one is called all the same.
    fn run(&mut self, d: &Dispatch) -> (r: Vec<CallReport>)
        requires
            script_channel(old(self).lua) == Some(true),
        ensures
            script_channel(final(self).lua) == Some(true),
            reports_match(r@, d.handlers@, d.args@.len() as int),
            final(self).table().generation == old(self).table().generation,
            grows(old(self).table().log, final(self).table().log, old(self).table().generation),
    {
        let calls = d.invocations();
        proof {
            assert forall|j: int| 0 <= j < calls@.len() implies (#[trigger] calls@[j]).args@.len()
                == d.args@.len() by {
                assert(crate::events::args_view(calls@[j].args@).len() == calls@[j].args@.len());
                assert(crate::events::args_view(d.args@).len() == d.args@.len());
            }
        }
        let mut reports: Vec<CallReport> = Vec::new();
        let mut i: usize = 0;
        proof {
            lemma_grows_refl(self.runtime@.log, self.runtime@.generation);
        }
        while i < calls.len()
            invariant
                i <= calls.len(),
                calls@.len() == d.handlers@.len(),
                forall|j: int|
                    0 <= j < calls@.len() ==> (#[trigger] calls@[j]).handler == d.handlers@[j]
                        && calls@[j].args@.len() == d.args@.len(),
                reports@.len() == i,
                forall|j: int|
                    0 <= j < i ==> (#[trigger] reports@[j]).handler == d.handlers@[j]
                        && reports@[j].nargs == d.args@.len(),
                self.runtime@.generation == old(self).runtime@.generation,
                grows(old(self).runtime@.log, self.runtime@.log, self.runtime@.generation),
                script_channel(self.lua) == Some(true),
            decreases calls.len() - i,
        {
            let ghost before = self.runtime@.log;
            let rep = self.call(&calls[i]);
            proof {
                lemma_grows_trans(old(self).runtime@.log, before, self.runtime@.log, self.runtime@.generation);
            }
            reports.push(rep);
            i = i + 1;
        }
        reports
    }

    /// Dispatches `e` to the handlers registered under its name, in
    /// registration order, each with the event's arguments; every one of
    /// them is called, whatever the others did, while the session is bound,
    /// and the session is unbound afterwards, so that a callable kept by a
    /// script fails once the dispatch is over. Without a handler nothing is
    /// built and nothing is called. Registrations made meanwhile belong to
    /// the current generation.
    pub fn dispatch_irc_event(&mut self, e: &Event) -> (r: DispatchReport)
        ensures
            reports_match(
                r.calls@,
                match event_plan(old(self).table(), *e) {
                    None => Seq::<HandlerRef>::empty(),
                    Some(d) => d.handlers,
                },
                event_args(*e).len() as int,
            ),
            !final(self).session_bound(),
            final(self).table().generation == old(self).table().generation,
            grows(old(self).table().log, final(self).table().log, old(self).table().generation),
            of_generation(old(self).table().log, old(self).table().generation) ==> of_generation(
                final(self).table().log,
                old(self).table().generation,
            ),
    {
        let ghost start = self.runtime@;
        self.release_session();
        let r = match self.runtime.prepare(e) {
            None => {
                proof {
                    lemma_grows_refl(self.runtime@.log, self.runtime@.generation);
                }
                DispatchReport { calls: Vec::new(), sent: Vec::new() }
            },
            Some(d) => {
                assert(crate::events::args_view(d.args@).len() == d.args@.len());
                bind_session(&mut self.lua);
                let calls = self.run(&d);
                let sent = unbind_session(&mut self.lua);
                DispatchReport { calls, sent }
            },
        };
        proof {
            if of_generation(start.log, start.generation) {
                lemma_grows_keeps_generation(start.log, self.runtime@.log, start.generation);
            }
        }
        r
    }
}

/// What the session carries besides the connection: the plugins.
pub struct SessionState {
    pub plugins: PluginManager,
}

} // verus!

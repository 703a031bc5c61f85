//! The handler table of one runtime generation, and the dispatch of an event
//! to the handlers registered under its name.
//!
//! Handlers are kept as a log of registrations, in the order in which they
//! were made; a reload starts a new generation with an empty log.

use crate::commands::same_text;
use crate::events::{
    args_of, args_view, copy_args, event_args, event_name, name_of, Arg, ArgView, Event,
};
use vstd::prelude::*;

verus! {

/// A handler as the script engine identifies it.
pub type HandlerRef = i64;

/// One call of `addhandler`.
pub struct Registration {
    pub name: String,
    pub handler: HandlerRef,
    /// The runtime generation in which the registration was made.
    pub generation: u64,
}

/// The handlers registered under `name`, in registration order.
pub open spec fn handlers_for(log: Seq<(Seq<char>, HandlerRef, u64)>, name: Seq<char>) -> Seq<HandlerRef>
    decreases log.len(),
{
    if log.len() == 0 {
        Seq::empty()
    } else {
        let rest = handlers_for(log.drop_last(), name);
        if log.last().0 == name {
            rest.push(log.last().1)
        } else {
            rest
        }
    }
}

pub open spec fn log_view(v: Seq<Registration>) -> Seq<(Seq<char>, HandlerRef, u64)> {
    v.map_values(|r: Registration| (r.name@, r.handler, r.generation))
}

/// The model of a runtime: its generation and its registrations.
pub struct RuntimeView {
    pub generation: u64,
    pub log: Seq<(Seq<char>, HandlerRef, u64)>,
}

/// The handler table of the current runtime generation.
pub struct Runtime {
    generation: u64,
    log: Vec<Registration>,
}

impl View for Runtime {
    type V = RuntimeView;

    closed spec fn view(&self) -> RuntimeView {
        RuntimeView { generation: self.generation, log: log_view(self.log@) }
    }
}

/// The work of one dispatch: the handlers to call, in order, and the
/// arguments that each of them receives.
pub struct Dispatch {
    pub generation: u64,
    pub name: String,
    pub handlers: Vec<HandlerRef>,
    pub args: Vec<Arg>,
}

/// One handler call of a dispatch, with its own copy of the arguments.
pub struct Invocation {
    pub generation: u64,
    pub handler: HandlerRef,
    pub args: Vec<Arg>,
}

pub struct DispatchView {
    pub generation: u64,
    pub name: Seq<char>,
    pub handlers: Seq<HandlerRef>,
    pub args: Seq<ArgView>,
}

impl View for Dispatch {
    type V = DispatchView;

    open spec fn view(&self) -> DispatchView {
        DispatchView {
            generation: self.generation,
            name: self.name@,
            handlers: self.handlers@,
            args: args_view(self.args@),
        }
    }
}

/// What a dispatch under `name` with `args` does in runtime `rt`: nothing
/// when no handler is registered under the name.
pub open spec fn plan(rt: RuntimeView, name: Seq<char>, args: Seq<ArgView>) -> Option<DispatchView> {
    let hs = handlers_for(rt.log, name);
    if hs.len() == 0 {
        None
    } else {
        Some(DispatchView { generation: rt.generation, name, handlers: hs, args })
    }
}

/// What the dispatch of `e` does in runtime `rt`.
pub open spec fn event_plan(rt: RuntimeView, e: Event) -> Option<DispatchView> {
    plan(rt, event_name(e), event_args(e))
}

pub open spec fn plan_view(d: Option<Dispatch>) -> Option<DispatchView> {
    match d {
        None => None,
        Some(d) => Some(d@),
    }
}

/// The runtime after a reload of `rt`.
pub open spec fn reloaded(rt: RuntimeView) -> RuntimeView {
    RuntimeView { generation: (rt.generation + 1) as u64, log: Seq::empty() }
}

/// The runtime after a registration.
pub open spec fn registered(rt: RuntimeView, name: Seq<char>, h: HandlerRef) -> RuntimeView {
    RuntimeView { generation: rt.generation, log: rt.log.push((name, h, rt.generation)) }
}

proof fn lemma_log_view_push(s: Seq<Registration>, r: Registration)
    ensures
        log_view(s.push(r)) == log_view(s).push((r.name@, r.handler, r.generation)),
{
    assert(log_view(s.push(r)) =~= log_view(s).push((r.name@, r.handler, r.generation)));
}

impl Runtime {
    /// The first generation, with no handler.
    pub fn new() -> (r: Runtime)
        ensures
            r@.generation == 0,
            r@.log == Seq::<(Seq<char>, HandlerRef, u64)>::empty(),
    {
        let r = Runtime { generation: 0, log: Vec::new() };
        assert(r@.log =~= Seq::<(Seq<char>, HandlerRef, u64)>::empty());
        r
    }

    /// The current generation.
    pub fn generation(&self) -> (r: u64)
        ensures
            r == self@.generation,
    {
        self.generation
    }

    /// Appends `handler` to the handlers of `name`.
    pub fn add_handler(&mut self, name: &str, handler: HandlerRef)
        ensures
            final(self)@ == registered(old(self)@, name@, handler),
    {
        let ghost before = self.log@;
        let reg = Registration { name: name.to_owned(), handler, generation: self.generation };
        self.log.push(reg);
        proof {
            lemma_log_view_push(before, reg);
        }
    }

    /// Discards every handler and starts the next generation.
    pub fn reload(&mut self)
        requires
            old(self)@.generation < u64::MAX,
        ensures
            final(self)@ == reloaded(old(self)@),
    {
        self.generation = self.generation + 1;
        self.log = Vec::new();
        assert(self@.log =~= Seq::<(Seq<char>, HandlerRef, u64)>::empty());
    }

    /// The handlers registered under `name`, in registration order.
    pub fn handlers(&self, name: &str) -> (r: Vec<HandlerRef>)
        ensures
            r@ == handlers_for(self@.log, name@),
    {
        let mut r: Vec<HandlerRef> = Vec::new();
        let mut i: usize = 0;
        while i < self.log.len()
            invariant
                i <= self.log.len(),
                r@ == handlers_for(log_view(self.log@.subrange(0, i as int)), name@),
            decreases self.log.len() - i,
        {
            proof {
                let sub = self.log@.subrange(0, i as int);
                assert(self.log@.subrange(0, i + 1) =~= sub.push(self.log@[i as int]));
                lemma_log_view_push(sub, self.log@[i as int]);
                assert(log_view(sub.push(self.log@[i as int])).drop_last() =~= log_view(sub));
            }
            if same_text(self.log[i].name.as_str(), name) {
                r.push(self.log[i].handler);
            }
            i = i + 1;
        }
        assert(self.log@.subrange(0, self.log.len() as int) =~= self.log@);
        r
    }

    /// Prepares the dispatch of `e`. Without a handler under the event's
    /// name nothing is built and `None` comes back.
    pub fn prepare(&self, e: &Event) -> (r: Option<Dispatch>)
        ensures
            plan_view(r) == event_plan(self@, *e),
    {
        let name = name_of(e);
        let hs = self.handlers(name.as_str());
        if hs.len() == 0 {
            return None;
        }
        Some(Dispatch { generation: self.generation, name, handlers: hs, args: args_of(e) })
    }

    /// Prepares the dispatch of the event that follows a reload: it has no
    /// arguments.
    pub fn prepare_reloaded(&self) -> (r: Option<Dispatch>)
        ensures
            plan_view(r) == plan(self@, "RELOADED"@, Seq::<ArgView>::empty()),
    {
        let name = String::from_str("RELOADED");
        let hs = self.handlers(name.as_str());
        if hs.len() == 0 {
            return None;
        }
        let args: Vec<Arg> = Vec::new();
        assert(args_view(args@) =~= Seq::<ArgView>::empty());
        Some(Dispatch { generation: self.generation, name, handlers: hs, args })
    }
}

impl Dispatch {
    /// The calls of this dispatch, in registration order, each with an
    /// independent copy of the arguments.
    pub fn invocations(&self) -> (r: Vec<Invocation>)
        ensures
            r@.len() == self.handlers@.len(),
            forall|i: int|
                0 <= i < r@.len() ==> (#[trigger] r@[i]).handler == self.handlers@[i]
                    && r@[i].generation == self.generation && args_view(r@[i].args@) == args_view(
                    self.args@,
                ),
    {
        let mut r: Vec<Invocation> = Vec::new();
        let mut i: usize = 0;
        while i < self.handlers.len()
            invariant
                i <= self.handlers.len(),
                r@.len() == i,
                forall|j: int|
                    0 <= j < i ==> (#[trigger] r@[j]).handler == self.handlers@[j]
                        && r@[j].generation == self.generation && args_view(r@[j].args@)
                        == args_view(self.args@),
            decreases self.handlers.len() - i,
        {
            r.push(
                Invocation {
                    generation: self.generation,
                    handler: self.handlers[i],
                    args: copy_args(&self.args),
                },
            );
            i = i + 1;
        }
        r
    }
}

/// Handlers registered under one name in the order `a`, `b`, `c` are called
/// in that order, after those registered before them, at every dispatch of
/// that name within the generation.
pub proof fn lemma_handler_order(
    rt: RuntimeView,
    name: Seq<char>,
    a: HandlerRef,
    b: HandlerRef,
    c: HandlerRef,
    args: Seq<ArgView>,
)
    ensures
        ({
            let after = registered(registered(registered(rt, name, a), name, b), name, c);
            &&& handlers_for(after.log, name) == handlers_for(rt.log, name) + seq![a, b, c]
            &&& plan(after, name, args) == Some(
                DispatchView {
                    generation: rt.generation,
                    name,
                    handlers: handlers_for(rt.log, name) + seq![a, b, c],
                    args,
                },
            )
        }),
{
    let g = rt.generation;
    let l1 = rt.log.push((name, a, g));
    let l2 = l1.push((name, b, g));
    let l3 = l2.push((name, c, g));
    assert(l1.drop_last() =~= rt.log);
    assert(l2.drop_last() =~= l1);
    assert(l3.drop_last() =~= l2);
    assert(handlers_for(l1, name) == handlers_for(rt.log, name).push(a));
    assert(handlers_for(l2, name) == handlers_for(l1, name).push(b));
    assert(handlers_for(l3, name) == handlers_for(l2, name).push(c));
    assert(handlers_for(l3, name) =~= handlers_for(rt.log, name) + seq![a, b, c]);
}

/// Registrations under other names do not change the handlers of `name`.
pub proof fn lemma_other_names(rt: RuntimeView, name: Seq<char>, other: Seq<char>, h: HandlerRef)
    requires
        other != name,
    ensures
        handlers_for(registered(rt, other, h).log, name) == handlers_for(rt.log, name),
{
    assert(rt.log.push((other, h, rt.generation)).drop_last() =~= rt.log);
}

/// After a reload, a dispatch reaches only handlers registered since, and
/// belongs to the new generation: no handler of an earlier generation is
/// ever called again.
pub proof fn lemma_reload_isolation(
    rt: RuntimeView,
    since: Seq<(Seq<char>, HandlerRef, u64)>,
    name: Seq<char>,
    args: Seq<ArgView>,
)
    requires
        rt.generation < u64::MAX,
    ensures
        ({
            let now = RuntimeView { generation: reloaded(rt).generation, log: reloaded(rt).log + since };
            &&& handlers_for(now.log, name) == handlers_for(since, name)
            &&& plan(now, name, args) matches Some(d) ==> d.generation > rt.generation
                && d.handlers == handlers_for(since, name)
        }),
{
    assert(Seq::<(Seq<char>, HandlerRef, u64)>::empty() + since =~= since);
}

/// Every handler of a dispatch receives the event's arguments as they were
/// built, whatever the handlers before it did (each call gets its own copy,
/// see `Dispatch::invocations`), and the arguments depend on the event alone,
/// so a later dispatch of the same event hands out the same values again.
pub proof fn lemma_dispatch_isolation(rt: RuntimeView, other: RuntimeView, e: Event)
    ensures
        event_plan(rt, e) matches Some(d) ==> d.args == event_args(e),
        event_plan(rt, e) matches Some(d) ==> event_plan(other, e) matches Some(d2) ==> d2.args
            == d.args,
{
}

} // verus!

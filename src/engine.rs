//! The embedded script interpreter: the few stack operations that the host
//! needs, each one call of the `lua` crate.
//!
//! The interpreter's value stack is modelled by `lua_stack`, one entry per
//! value from the bottom up, `true` for a table that the host built and is
//! filling; `lua_room` is how many more values the API may push before the
//! stack has to be grown with `ensure_room`. The interpreter does not check
//! either bound itself, so every operation states what it needs of them.

use crate::binding::ScriptChannel;
use vstd::prelude::*;

verus! {

#[verifier::external_type_specification]
#[verifier::external_body]
pub struct ExLuaState(lua::State);

/// The values on the interpreter's stack, bottom first: `true` for a table
/// built by `push_record`, `false` for any other value.
pub uninterp spec fn lua_stack(st: lua::State) -> Seq<bool>;

/// How many values may still be pushed without growing the stack.
pub uninterp spec fn lua_room(st: lua::State) -> nat;

/// The interpreter's script channel (kept in its extra slot): `None` when it
/// has none, else whether a session is bound to it.
pub uninterp spec fn script_channel(st: lua::State) -> Option<bool>;

/// Whether `source` is a chunk that the interpreter compiles.
pub uninterp spec fn lua_compiles(source: Seq<char>) -> bool;

/// Whether `s` holds no NUL character; the interpreter takes names and
/// paths as C strings.
pub open spec fn c_safe(s: Seq<char>) -> bool {
    forall|i: int| 0 <= i < s.len() ==> s[i] != '\0'
}

/// `after` is `before` with one more value of kind `k` on top.
pub open spec fn pushed(before: lua::State, after: lua::State, k: bool) -> bool {
    &&& script_channel(after) == script_channel(before)
    &&& lua_stack(after) == lua_stack(before).push(k)
    &&& lua_room(after) + 1 == lua_room(before)
}

/// `after` is `before` with its `n` top values removed.
pub open spec fn popped(before: lua::State, after: lua::State, n: int) -> bool {
    &&& script_channel(after) == script_channel(before)
    &&& lua_stack(after) == lua_stack(before).subrange(0, lua_stack(before).len() - n)
    &&& lua_room(after) == lua_room(before) + n
}

/// `after` holds the same stack as `before`.
pub open spec fn same_stack(before: lua::State, after: lua::State) -> bool {
    &&& script_channel(after) == script_channel(before)
    &&& lua_stack(after) == lua_stack(before)
    &&& lua_room(after) == lua_room(before)
}

/// Relies on `lua::State::check_stack` (`lua_checkstack`): makes room for
/// `n` more values; it fails when the stack would outgrow its limit (about
/// one million slots) or memory runs out. The stack never holds more than
/// its limit plus a small margin for error handling. The values stay as
/// they are.
#[verifier::external_body]
pub(crate) fn ensure_room(st: &mut lua::State, n: i32) -> (r: bool)
    requires
        n >= 0,
    ensures
        script_channel(*final(st)) == script_channel(*old(st)),
        lua_stack(*final(st)) == lua_stack(*old(st)),
        lua_room(*final(st)) >= lua_room(*old(st)),
        r ==> lua_room(*final(st)) >= n && lua_stack(*final(st)).len() + n <= 2_000_000,
{
    st.check_stack(n)
}

/// Relies on `lua::State::get_field` on the registry: pushes the value
/// stored under `key`.
#[verifier::external_body]
pub(crate) fn push_registry_field(st: &mut lua::State, key: &str)
    requires
        c_safe(key@),
        lua_room(*old(st)) >= 1,
    ensures
        pushed(*old(st), *final(st), false),
{
    st.get_field(lua::REGISTRYINDEX, key);
}

/// Relies on `lua::State::set_field` on the registry: pops the top value and
/// stores it under `key` (the key is pushed for a moment).
#[verifier::external_body]
pub(crate) fn store_registry_field(st: &mut lua::State, key: &str)
    requires
        c_safe(key@),
        lua_stack(*old(st)).len() >= 1,
        lua_room(*old(st)) >= 1,
    ensures
        popped(*old(st), *final(st), 1),
{
    st.set_field(lua::REGISTRYINDEX, key);
}

/// Relies on `lua::State::raw_geti` on the registry: pushes the value that
/// the reference `r` designates.
#[verifier::external_body]
pub(crate) fn push_registry_ref(st: &mut lua::State, r: i64)
    requires
        lua_room(*old(st)) >= 1,
    ensures
        pushed(*old(st), *final(st), false),
{
    st.raw_geti(lua::REGISTRYINDEX, r);
}

/// Relies on `lua::State::push_nil`.
#[verifier::external_body]
pub(crate) fn push_nil(st: &mut lua::State)
    requires
        lua_room(*old(st)) >= 1,
    ensures
        pushed(*old(st), *final(st), false),
{
    st.push_nil();
}

/// Relies on `lua::State::push_string`: pushes a copy of `s`.
#[verifier::external_body]
pub(crate) fn push_text(st: &mut lua::State, s: &str)
    requires
        lua_room(*old(st)) >= 1,
    ensures
        pushed(*old(st), *final(st), false),
{
    st.push_string(s);
}

/// Relies on `lua::State::create_table`: pushes an empty table sized for
/// `fields` named fields.
#[verifier::external_body]
pub(crate) fn push_record(st: &mut lua::State, fields: i32)
    requires
        fields >= 0,
        lua_room(*old(st)) >= 1,
    ensures
        pushed(*old(st), *final(st), true),
{
    st.create_table(0, fields);
}

/// Relies on `lua::State::set_field` on the table below the top: pops the
/// top value and stores it in that table under `key` (the key is pushed for
/// a moment). A table that the host built has no metatable, so nothing else
/// runs.
#[verifier::external_body]
pub(crate) fn set_record_field(st: &mut lua::State, key: &str)
    requires
        c_safe(key@),
        lua_stack(*old(st)).len() >= 2,
        lua_stack(*old(st))[lua_stack(*old(st)).len() - 2],
        lua_room(*old(st)) >= 1,
    ensures
        popped(*old(st), *final(st), 1),
{
    st.set_field(-2, key);
}

/// Relies on `lua::State::get_top`: the number of values on the stack.
#[verifier::external_body]
pub(crate) fn stack_top(st: &mut lua::State) -> (r: i32)
    requires
        lua_stack(*old(st)).len() <= i32::MAX,
    ensures
        r == lua_stack(*old(st)).len(),
        same_stack(*old(st), *final(st)),
{
    st.get_top()
}

/// Relies on `lua::State::pcall`: calls the function below the `nargs` top
/// values with them, the message handler standing at stack index `handler`
/// (counted from 1), and removes the function and its arguments. True when
/// the call returned without error; on error the error value is pushed in
/// their place. Whether the script fails is its own affair. The natives that
/// the script may call queue registrations and lines, but never bind or
/// unbind a session.
#[verifier::external_body]
pub(crate) fn protected_call(st: &mut lua::State, nargs: i32, handler: i32) -> (r: bool)
    requires
        nargs >= 0,
        lua_stack(*old(st)).len() >= nargs + 2,
        1 <= handler <= lua_stack(*old(st)).len() - nargs - 1,
    ensures
        r ==> popped(*old(st), *final(st), nargs + 1),
        script_channel(*final(st)) == script_channel(*old(st)),
        !r ==> lua_stack(*final(st)) == lua_stack(*old(st)).subrange(
            0,
            lua_stack(*old(st)).len() - nargs - 1,
        ).push(false) && lua_room(*final(st)) == lua_room(*old(st)) + nargs,
{
    !st.pcall(nargs, 0, handler).is_err()
}

/// Relies on `lua::State::to_str_in_place` (`lua_tolstring`): a copy of the
/// top value when it is a string or a number (a number is turned into its
/// text in place), empty otherwise or when it is not valid UTF-8. No
/// metamethod runs and nothing is pushed.
#[verifier::external_body]
pub(crate) fn describe_top(st: &mut lua::State) -> (r: String)
    requires
        lua_stack(*old(st)).len() >= 1,
    ensures
        same_stack(*old(st), *final(st)),
{
    st.to_str_in_place(-1).unwrap_or("").to_owned()
}

/// Relies on `lua::State::pop`: removes `n` values from the top.
#[verifier::external_body]
pub(crate) fn pop_values(st: &mut lua::State, n: i32)
    requires
        0 <= n <= lua_stack(*old(st)).len(),
    ensures
        popped(*old(st), *final(st), n as int),
{
    st.pop(n);
}

/// Relies on `lua::State::load_file`: pushes the compiled chunk of the file,
/// or the error when it cannot be read or compiled (then false).
#[verifier::external_body]
pub(crate) fn load_chunk_file(st: &mut lua::State, path: &str) -> (r: bool)
    requires
        c_safe(path@),
        lua_room(*old(st)) >= 1,
    ensures
        pushed(*old(st), *final(st), false),
{
    !st.load_file(path).is_err()
}

/// Relies on `lua::State::load_string`: pushes the compiled chunk of
/// `source`, or the error (then false). Whether it compiles depends on the
/// text alone.
#[verifier::external_body]
pub(crate) fn load_chunk_text(st: &mut lua::State, source: &str) -> (r: bool)
    requires
        c_safe(source@),
        lua_room(*old(st)) >= 1,
    ensures
        r == lua_compiles(source@),
        pushed(*old(st), *final(st), false),
{
    !st.load_string(source).is_err()
}

/// Relies on `lua::State::set_extra`: gives the interpreter a fresh script
/// channel (no registration, no session bound) in its extra slot.
#[verifier::external_body]
pub(crate) fn attach_channel(st: &mut lua::State)
    ensures
        script_channel(*final(st)) == Some(false),
        lua_stack(*final(st)) == lua_stack(*old(st)),
        lua_room(*final(st)) == lua_room(*old(st)),
{
    let _had_one: bool = st.set_extra(Some(Box::new(ScriptChannel::new()))).is_some();
}

/// Relies on `lua::State::with_extra`: whether the extra slot holds a script
/// channel.
#[verifier::external_body]
pub(crate) fn has_channel(st: &mut lua::State) -> (r: bool)
    ensures
        r == script_channel(*old(st)) is Some,
        same_stack(*old(st), *final(st)),
{
    st.with_extra(|e| e.as_ref().map_or(false, |b| b.is::<ScriptChannel>()))
}

/// Relies on `lua::State::with_extra`: binds a session to the script
/// channel (`Binding::activate`), with nothing queued.
#[verifier::external_body]
pub(crate) fn bind_session(st: &mut lua::State)
    requires
        script_channel(*old(st)) is Some,
    ensures
        script_channel(*final(st)) == Some(true),
        lua_stack(*final(st)) == lua_stack(*old(st)),
        lua_room(*final(st)) == lua_room(*old(st)),
{
    st.with_extra(|e| e.as_mut().and_then(|b| b.downcast_mut::<ScriptChannel>()).map(|c| c.session.activate()));
}

/// Relies on `lua::State::with_extra`: unbinds the session of the script
/// channel (`Binding::deactivate`) and hands back the lines the scripts
/// queued for it.
#[verifier::external_body]
pub(crate) fn unbind_session(st: &mut lua::State) -> (r: Vec<String>)
    requires
        script_channel(*old(st)) is Some,
    ensures
        script_channel(*final(st)) == Some(false),
        lua_stack(*final(st)) == lua_stack(*old(st)),
        lua_room(*final(st)) == lua_room(*old(st)),
{
    st.with_extra(|e| e.as_mut().and_then(|b| b.downcast_mut::<ScriptChannel>()).map(|c| c.session.deactivate()))
        .unwrap_or_default()
}

/// Relies on `lua::State::with_extra`: takes the registrations that the
/// `addhandler` native queued in the script channel, in call order, leaving
/// none.
#[verifier::external_body]
pub(crate) fn take_registrations(st: &mut lua::State) -> (r: Vec<(String, i64)>)
    ensures
        same_stack(*old(st), *final(st)),
{
    st.with_extra(|e| e.as_mut().and_then(|b| b.downcast_mut::<ScriptChannel>())
        .map(|c| std::mem::take(&mut c.registrations)))
        .unwrap_or_default()
}

} // verus!

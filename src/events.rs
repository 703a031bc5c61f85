//! Protocol events, and the name and arguments under which script handlers
//! receive them.

use crate::commands::{Command, CommandView};
use crate::config::Channel;
use vstd::prelude::*;

verus! {

/// The sender of a line, as it stood in the line's prefix.
#[derive(Clone, Debug, PartialEq, Eq)]
pub struct User {
    /// The whole prefix text.
    pub raw: String,
    pub nick: String,
    pub user: Option<String>,
    pub host: Option<String>,
}

/// What kind of line was received.
#[derive(Clone, Debug, PartialEq, Eq)]
pub enum LineCommand {
    /// A numeric reply.
    Code(u16),
    /// A named command (`PRIVMSG`, `JOIN`, ...).
    Named(String),
    /// A CTCP action sent to the destination.
    Action(String),
    /// A CTCP command with its name and destination.
    Ctcp(String, String),
    /// A CTCP reply with its name and destination.
    CtcpReply(String, String),
}

/// A line received from the server.
#[derive(Clone, Debug, PartialEq, Eq)]
pub struct Line {
    pub command: LineCommand,
    pub args: Vec<String>,
    pub prefix: Option<User>,
}

/// What happened on the session.
#[derive(Clone, Debug, PartialEq, Eq)]
pub enum Event {
    Connected,
    Disconnected,
    LineReceived(Line),
}

/// One argument handed to a handler.
#[derive(Clone, Debug, PartialEq, Eq)]
pub enum Arg {
    /// No value (a line without a sender).
    Nil,
    Text(String),
    /// A record with the fields `raw`, `nick`, `user` and `host`.
    Sender(User),
}

pub struct UserView {
    pub raw: Seq<char>,
    pub nick: Seq<char>,
    pub user: Option<Seq<char>>,
    pub host: Option<Seq<char>>,
}

pub enum ArgView {
    Nil,
    Text(Seq<char>),
    Sender(UserView),
}

pub open spec fn opt_view(o: Option<String>) -> Option<Seq<char>> {
    match o {
        None => None,
        Some(s) => Some(s@),
    }
}

impl View for User {
    type V = UserView;

    open spec fn view(&self) -> UserView {
        UserView { raw: self.raw@, nick: self.nick@, user: opt_view(self.user), host: opt_view(self.host) }
    }
}

impl View for Arg {
    type V = ArgView;

    open spec fn view(&self) -> ArgView {
        match self {
            Arg::Nil => ArgView::Nil,
            Arg::Text(t) => ArgView::Text(t@),
            Arg::Sender(u) => ArgView::Sender(u@),
        }
    }
}

pub open spec fn args_view(v: Seq<Arg>) -> Seq<ArgView> {
    v.map_values(|a: Arg| a@)
}

pub open spec fn texts_view(v: Seq<String>) -> Seq<ArgView> {
    v.map_values(|t: String| ArgView::Text(t@))
}

/// The decimal digits of `n`, without leading zeros.
pub open spec fn decimal(n: nat) -> Seq<char>
    decreases n,
{
    if n < 10 {
        seq![digit_char(n)]
    } else {
        decimal(n / 10).push(digit_char(n % 10))
    }
}

pub open spec fn digit_char(d: nat) -> char {
    if d == 0 { '0' }
    else if d == 1 { '1' }
    else if d == 2 { '2' }
    else if d == 3 { '3' }
    else if d == 4 { '4' }
    else if d == 5 { '5' }
    else if d == 6 { '6' }
    else if d == 7 { '7' }
    else if d == 8 { '8' }
    else { '9' }
}

/// The sender argument of a line.
pub open spec fn sender_view(prefix: Option<User>) -> ArgView {
    match prefix {
        None => ArgView::Nil,
        Some(u) => ArgView::Sender(u@),
    }
}

/// The name under which handlers receive `e`.
pub open spec fn event_name(e: Event) -> Seq<char> {
    match e {
        Event::Connected => "CONNECTED"@,
        Event::Disconnected => "DISCONNECTED"@,
        Event::LineReceived(line) => match line.command {
            LineCommand::Code(c) => decimal(c as nat),
            LineCommand::Named(n) => n@,
            LineCommand::Action(_) => "ACTION"@,
            LineCommand::Ctcp(_, _) => "CTCP"@,
            LineCommand::CtcpReply(_, _) => "CTCPREPLY"@,
        },
    }
}

/// The arguments with which handlers receive `e`, in order.
pub open spec fn event_args(e: Event) -> Seq<ArgView> {
    match e {
        Event::Connected => Seq::empty(),
        Event::Disconnected => Seq::empty(),
        Event::LineReceived(line) => {
            let s = sender_view(line.prefix);
            let rest = texts_view(line.args@);
            match line.command {
                LineCommand::Code(_) => seq![s] + rest,
                LineCommand::Named(_) => seq![s] + rest,
                LineCommand::Action(dst) => seq![s, ArgView::Text(dst@)] + rest,
                LineCommand::Ctcp(cmd, dst) => seq![s, ArgView::Text(cmd@), ArgView::Text(dst@)] + rest,
                LineCommand::CtcpReply(cmd, dst) => seq![s, ArgView::Text(cmd@), ArgView::Text(dst@)]
                    + rest,
            }
        },
    }
}

proof fn lemma_args_view_push(s: Seq<Arg>, a: Arg)
    ensures
        args_view(s.push(a)) == args_view(s).push(a@),
{
    assert(args_view(s.push(a)) =~= args_view(s).push(a@));
}

proof fn lemma_texts_view_push(s: Seq<String>, t: String)
    ensures
        texts_view(s.push(t)) == texts_view(s).push(ArgView::Text(t@)),
{
    assert(texts_view(s.push(t)) =~= texts_view(s).push(ArgView::Text(t@)));
}

/// A copy of `s`.
pub fn copy_text(s: &String) -> (r: String)
    ensures
        r@ == s@,
{
    s.as_str().to_owned()
}

pub fn copy_opt_text(s: &Option<String>) -> (r: Option<String>)
    ensures
        opt_view(r) == opt_view(*s),
{
    match s {
        None => None,
        Some(t) => Some(copy_text(t)),
    }
}

/// A copy of `u`, field by field.
pub fn copy_user(u: &User) -> (r: User)
    ensures
        r@ == u@,
{
    User {
        raw: copy_text(&u.raw),
        nick: copy_text(&u.nick),
        user: copy_opt_text(&u.user),
        host: copy_opt_text(&u.host),
    }
}

/// An independent copy of `a`: records are copied field by field.
pub fn copy_arg(a: &Arg) -> (r: Arg)
    ensures
        r@ == a@,
{
    match a {
        Arg::Nil => Arg::Nil,
        Arg::Text(t) => Arg::Text(copy_text(t)),
        Arg::Sender(u) => Arg::Sender(copy_user(u)),
    }
}

/// An independent copy of every argument in `args`.
pub fn copy_args(args: &Vec<Arg>) -> (r: Vec<Arg>)
    ensures
        args_view(r@) == args_view(args@),
{
    let mut r: Vec<Arg> = Vec::new();
    let mut i: usize = 0;
    while i < args.len()
        invariant
            i <= args.len(),
            args_view(r@) == args_view(args@.subrange(0, i as int)),
        decreases args.len() - i,
    {
        let ghost before = r@;
        r.push(copy_arg(&args[i]));
        proof {
            assert(args@.subrange(0, i + 1) =~= args@.subrange(0, i as int).push(args@[i as int]));
            lemma_args_view_push(before, r@.last());
            lemma_args_view_push(args@.subrange(0, i as int), args@[i as int]);
            assert(r@ =~= before.push(r@.last()));
        }
        i = i + 1;
    }
    assert(args@.subrange(0, args.len() as int) =~= args@);
    r
}

/// Appends each text of `v` to `out` as a text argument.
fn push_texts(out: &mut Vec<Arg>, v: &Vec<String>)
    ensures
        args_view(final(out)@) == args_view(old(out)@) + texts_view(v@),
{
    let ghost start = out@;
    let mut i: usize = 0;
    while i < v.len()
        invariant
            i <= v.len(),
            args_view(out@) == args_view(start) + texts_view(v@.subrange(0, i as int)),
        decreases v.len() - i,
    {
        let ghost before = out@;
        out.push(Arg::Text(copy_text(&v[i])));
        proof {
            assert(v@.subrange(0, i + 1) =~= v@.subrange(0, i as int).push(v@[i as int]));
            lemma_args_view_push(before, out@.last());
            lemma_texts_view_push(v@.subrange(0, i as int), v@[i as int]);
            assert(out@ =~= before.push(out@.last()));
            assert(args_view(out@) =~= args_view(start) + texts_view(v@.subrange(0, i + 1)));
        }
        i = i + 1;
    }
    assert(v@.subrange(0, v.len() as int) =~= v@);
}

/// The decimal text of `n`.
pub fn decimal_text(n: u16) -> (r: String)
    ensures
        r@ == decimal(n as nat),
    decreases n,
{
    let digits = "0123456789";
    proof {
        reveal_strlit("0123456789");
    }
    let d = (n % 10) as usize;
    let one = digits.substring_char(d, d + 1);
    assert(one@ =~= seq![digit_char(n as nat % 10)]);
    if n < 10 {
        one.to_owned()
    } else {
        let mut s = decimal_text(n / 10);
        s.append(one);
        assert(s@ =~= decimal(n as nat / 10).push(digit_char(n as nat % 10)));
        s
    }
}

/// The sender argument of a line, built once per dispatch.
pub fn sender_arg(prefix: &Option<User>) -> (r: Arg)
    ensures
        r@ == sender_view(*prefix),
{
    match prefix {
        None => Arg::Nil,
        Some(u) => Arg::Sender(copy_user(u)),
    }
}

/// The name under which handlers receive `e`.
pub fn name_of(e: &Event) -> (r: String)
    ensures
        r@ == event_name(*e),
{
    match e {
        Event::Connected => String::from_str("CONNECTED"),
        Event::Disconnected => String::from_str("DISCONNECTED"),
        Event::LineReceived(line) => match &line.command {
            LineCommand::Code(c) => decimal_text(*c),
            LineCommand::Named(n) => copy_text(n),
            LineCommand::Action(_) => String::from_str("ACTION"),
            LineCommand::Ctcp(_, _) => String::from_str("CTCP"),
            LineCommand::CtcpReply(_, _) => String::from_str("CTCPREPLY"),
        },
    }
}

/// The arguments with which handlers receive `e`.
pub fn args_of(e: &Event) -> (r: Vec<Arg>)
    ensures
        args_view(r@) == event_args(*e),
{
    let mut r: Vec<Arg> = Vec::new();
    match e {
        Event::Connected => {},
        Event::Disconnected => {},
        Event::LineReceived(line) => {
            r.push(sender_arg(&line.prefix));
            match &line.command {
                LineCommand::Code(_) => {},
                LineCommand::Named(_) => {},
                LineCommand::Action(dst) => {
                    r.push(Arg::Text(copy_text(dst)));
                },
                LineCommand::Ctcp(cmd, dst) => {
                    r.push(Arg::Text(copy_text(cmd)));
                    r.push(Arg::Text(copy_text(dst)));
                },
                LineCommand::CtcpReply(cmd, dst) => {
                    r.push(Arg::Text(copy_text(cmd)));
                    r.push(Arg::Text(copy_text(dst)));
                },
            }
            push_texts(&mut r, &line.args);
        },
    }
    assert(args_view(r@) =~= event_args(*e));
    r
}

/// Whether `e` is the welcome reply (numeric 001) that ends the login.
pub open spec fn is_welcome(e: Event) -> bool {
    e matches Event::LineReceived(line) && line.command == LineCommand::Code(1)
}

pub open spec fn commands_view(v: Seq<Command>) -> Seq<CommandView> {
    v.map_values(|c: Command| c@)
}

/// The joins that the autojoin list asks for once logged in: one per
/// channel, in order, without key.
pub open spec fn autojoin_spec(e: Event, chans: Seq<Channel>) -> Seq<CommandView> {
    if is_welcome(e) {
        chans.map_values(|c: Channel| CommandView::Join { chans: c.name@, keys: None })
    } else {
        Seq::empty()
    }
}

/// The commands that the session issues by itself on `e`: on the welcome
/// reply it joins the autojoin channels.
pub fn autojoin_commands(e: &Event, chans: &Vec<Channel>) -> (r: Vec<Command>)
    ensures
        commands_view(r@) == autojoin_spec(*e, chans@),
{
    let mut r: Vec<Command> = Vec::new();
    let welcome = match e {
        Event::LineReceived(line) => match line.command {
            LineCommand::Code(c) => c == 1,
            _ => false,
        },
        _ => false,
    };
    if !welcome {
        assert(commands_view(r@) =~= Seq::<CommandView>::empty());
        return r;
    }
    let mut i: usize = 0;
    while i < chans.len()
        invariant
            i <= chans.len(),
            commands_view(r@) =~= chans@.subrange(0, i as int).map_values(
                |c: Channel| CommandView::Join { chans: c.name@, keys: None },
            ),
        decreases chans.len() - i,
    {
        let ghost before = r@;
        r.push(Command::Join { chans: copy_text(&chans[i].name), keys: None });
        proof {
            assert(chans@.subrange(0, i + 1) =~= chans@.subrange(0, i as int).push(chans@[i as int]));
            assert(commands_view(r@) =~= commands_view(before).push(r@.last()@));
        }
        i = i + 1;
    }
    assert(chans@.subrange(0, chans.len() as int) =~= chans@);
    r
}

} // verus!

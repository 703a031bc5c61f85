//! Reading one protocol line from the server into an [`Event`]:
//! `[:prefix] COMMAND params... [:trailing]`, with numeric replies and CTCP
//! messages told apart.

use crate::commands::{holds, same_text, split_at_char, split_on, Command, CommandView};
use crate::events::{copy_text, opt_view, Event, Line, LineCommand, User, UserView};
use vstd::prelude::*;

verus! {

/// The words of `s` from index `i` on, `w` being the start of the word
/// being read (or -1). A word that starts with `:` takes the rest of the
/// line, spaces included, without the colon.
pub open spec fn words_from(s: Seq<char>, i: int, w: int) -> Seq<Seq<char>>
    decreases s.len() - i,
{
    if i >= s.len() {
        if w >= 0 {
            seq![s.subrange(w, s.len() as int)]
        } else {
            Seq::empty()
        }
    } else if w < 0 {
        if s[i] == ':' {
            seq![s.subrange(i + 1, s.len() as int)]
        } else if s[i] == ' ' {
            words_from(s, i + 1, -1)
        } else {
            words_from(s, i + 1, i)
        }
    } else if s[i] == ' ' {
        seq![s.subrange(w, i)] + words_from(s, i + 1, -1)
    } else {
        words_from(s, i + 1, w)
    }
}

/// The words of `s`.
pub open spec fn words(s: Seq<char>) -> Seq<Seq<char>> {
    words_from(s, 0, -1)
}

pub open spec fn texts(v: Seq<String>) -> Seq<Seq<char>> {
    v.map_values(|t: String| t@)
}

proof fn lemma_texts_push(v: Seq<String>, t: String)
    ensures
        texts(v.push(t)) == texts(v).push(t@),
{
    assert(texts(v.push(t)) =~= texts(v).push(t@));
}

/// The words of `s`.
pub fn split_words(s: &str) -> (r: Vec<String>)
    ensures
        texts(r@) == words(s@),
{
    let n = s.unicode_len();
    let mut r: Vec<String> = Vec::new();
    let mut i: usize = 0;
    let mut w: usize = 0;
    let mut in_word = false;
    while i < n
        invariant
            n == s@.len(),
            i <= n,
            in_word ==> w < i,
            texts(r@) + words_from(s@, i as int, if in_word { w as int } else { -1 }) == words(s@),
        decreases n - i,
    {
        let c = s.get_char(i);
        if !in_word {
            if c == ':' {
                let ghost before = r@;
                let t = s.substring_char(i + 1, n).to_owned();
                r.push(t);
                proof {
                    lemma_texts_push(before, t);
                    assert(texts(r@) + Seq::<Seq<char>>::empty() =~= texts(before) + words_from(s@, i as int, -1));
                }
                return r;
            } else if c == ' ' {
                i = i + 1;
            } else {
                w = i;
                in_word = true;
                i = i + 1;
            }
        } else if c == ' ' {
            let ghost before = r@;
            let t = s.substring_char(w, i).to_owned();
            r.push(t);
            proof {
                lemma_texts_push(before, t);
                assert(texts(before) + (seq![t@] + words_from(s@, i + 1, -1)) =~= texts(r@)
                    + words_from(s@, i + 1, -1));
            }
            in_word = false;
            i = i + 1;
        } else {
            i = i + 1;
        }
    }
    if in_word {
        let ghost before = r@;
        let t = s.substring_char(w, n).to_owned();
        r.push(t);
        proof {
            lemma_texts_push(before, t);
        }
    }
    assert(texts(r@) =~= words(s@));
    r
}

/// The sender a prefix stands for: `nick!user@host`, `nick@host` or `nick`.
pub open spec fn user_spec(p: Seq<char>) -> UserView {
    if holds(p, '!') {
        let rest = split_on(p, '!').1;
        UserView {
            raw: p,
            nick: split_on(p, '!').0,
            user: Some(split_on(rest, '@').0),
            host: if holds(rest, '@') {
                Some(split_on(rest, '@').1)
            } else {
                None
            },
        }
    } else if holds(p, '@') {
        UserView { raw: p, nick: split_on(p, '@').0, user: None, host: Some(split_on(p, '@').1) }
    } else {
        UserView { raw: p, nick: p, user: None, host: None }
    }
}

/// The sender a prefix stands for.
pub fn parse_user(p: &str) -> (r: User)
    ensures
        r@ == user_spec(p@),
{
    let (nick, rest) = split_at_char(p, '!');
    match rest {
        Some(rest) => {
            let (user, host) = split_at_char(rest, '@');
            User {
                raw: p.to_owned(),
                nick: nick.to_owned(),
                user: Some(user.to_owned()),
                host: match host {
                    None => None,
                    Some(h) => Some(h.to_owned()),
                },
            }
        },
        None => {
            let (nick, host) = split_at_char(p, '@');
            match host {
                None => User { raw: p.to_owned(), nick: p.to_owned(), user: None, host: None },
                Some(h) => User {
                    raw: p.to_owned(),
                    nick: nick.to_owned(),
                    user: None,
                    host: Some(h.to_owned()),
                },
            }
        },
    }
}

pub open spec fn is_digit(c: char) -> bool {
    '0' <= c <= '9'
}

pub open spec fn digit_value(c: char) -> int {
    (c as u32) - ('0' as u32)
}

/// The numeric reply a command of three digits stands for.
pub open spec fn code_spec(c: Seq<char>) -> Option<u16> {
    if c.len() == 3 && is_digit(c[0]) && is_digit(c[1]) && is_digit(c[2]) {
        Some((100 * digit_value(c[0]) + 10 * digit_value(c[1]) + digit_value(c[2])) as u16)
    } else {
        None
    }
}

pub fn parse_code(c: &str) -> (r: Option<u16>)
    ensures
        r == code_spec(c@),
{
    if c.unicode_len() != 3 {
        return None;
    }
    let a = c.get_char(0);
    let b = c.get_char(1);
    let d = c.get_char(2);
    if !('0' <= a && a <= '9' && '0' <= b && b <= '9' && '0' <= d && d <= '9') {
        return None;
    }
    let v = 100 * (a as u32 - '0' as u32) + 10 * (b as u32 - '0' as u32) + (d as u32 - '0' as u32);
    Some(v as u16)
}

pub open spec fn ctcp_mark() -> char {
    '\u{1}'
}

/// The inside of a CTCP message: a text that starts and ends with the mark.
pub open spec fn ctcp_inner(t: Seq<char>) -> Option<Seq<char>> {
    if t.len() >= 2 && t[0] == ctcp_mark() && t.last() == ctcp_mark() {
        Some(t.subrange(1, t.len() - 1))
    } else {
        None
    }
}

pub struct LineView {
    pub command: LineCommandView,
    pub args: Seq<Seq<char>>,
    pub prefix: Option<UserView>,
}

pub enum LineCommandView {
    Code(u16),
    Named(Seq<char>),
    Action(Seq<char>),
    Ctcp(Seq<char>, Seq<char>),
    CtcpReply(Seq<char>, Seq<char>),
}

pub open spec fn line_command_view(c: LineCommand) -> LineCommandView {
    match c {
        LineCommand::Code(n) => LineCommandView::Code(n),
        LineCommand::Named(t) => LineCommandView::Named(t@),
        LineCommand::Action(d) => LineCommandView::Action(d@),
        LineCommand::Ctcp(a, b) => LineCommandView::Ctcp(a@, b@),
        LineCommand::CtcpReply(a, b) => LineCommandView::CtcpReply(a@, b@),
    }
}

pub open spec fn line_view(l: Line) -> LineView {
    LineView {
        command: line_command_view(l.command),
        args: texts(l.args@),
        prefix: match l.prefix {
            None => None,
            Some(u) => Some(u@),
        },
    }
}

/// The command and arguments that a command word and its parameters stand
/// for: numeric replies by their number, and a `PRIVMSG` (or `NOTICE`) to a
/// destination whose text is a CTCP message as an action, a CTCP command
/// (or a CTCP reply).
pub open spec fn classify(name: Seq<char>, params: Seq<Seq<char>>) -> (LineCommandView, Seq<Seq<char>>) {
    let privmsg = name == "PRIVMSG"@;
    let notice = name == "NOTICE"@;
    if code_spec(name) is Some {
        (LineCommandView::Code(code_spec(name).unwrap()), params)
    } else if (privmsg || notice) && params.len() == 2 && ctcp_inner(params[1]) is Some {
        let inner = ctcp_inner(params[1]).unwrap();
        let (cmd, text) = split_on(inner, ' ');
        let rest = if holds(inner, ' ') {
            seq![text]
        } else {
            Seq::empty()
        };
        if privmsg && cmd == "ACTION"@ {
            (LineCommandView::Action(params[0]), seq![text])
        } else if privmsg {
            (LineCommandView::Ctcp(cmd, params[0]), rest)
        } else {
            (LineCommandView::CtcpReply(cmd, params[0]), rest)
        }
    } else {
        (LineCommandView::Named(name), params)
    }
}

/// The line that a text received from the server stands for; `None` when
/// it holds no command.
pub open spec fn wire_spec(l: Seq<char>) -> Option<LineView> {
    let has_prefix = l.len() > 0 && l[0] == ':';
    let body = if has_prefix {
        split_on(l.drop_first(), ' ').1
    } else {
        l
    };
    let prefix = if has_prefix {
        Some(user_spec(split_on(l.drop_first(), ' ').0))
    } else {
        None
    };
    let ws = words(body);
    if ws.len() == 0 {
        None
    } else {
        let (command, args) = classify(ws[0], ws.drop_first());
        Some(LineView { command, args, prefix })
    }
}

fn single(t: String) -> (r: Vec<String>)
    ensures
        texts(r@) == seq![t@],
{
    let mut r: Vec<String> = Vec::new();
    r.push(t);
    proof {
        lemma_texts_push(Seq::empty(), t);
        assert(Seq::<String>::empty().push(t) =~= r@);
        assert(texts(Seq::<String>::empty()) =~= Seq::<Seq<char>>::empty());
        assert(Seq::<Seq<char>>::empty().push(t@) =~= seq![t@]);
    }
    r
}

/// The command and arguments of a line with command word `name`.
fn classify_line(name: &str, params: Vec<String>) -> (r: (LineCommand, Vec<String>))
    ensures
        (line_command_view(r.0), texts(r.1@)) == classify(name@, texts(params@)),
{
    if let Some(c) = parse_code(name) {
        return (LineCommand::Code(c), params);
    }
    let privmsg = same_text(name, "PRIVMSG");
    let notice = same_text(name, "NOTICE");
    if !(privmsg || notice) || params.len() != 2 {
        return (LineCommand::Named(name.to_owned()), params);
    }
    let ghost ps = texts(params@);
    assert(ps[1] == params@[1]@);
    assert(ps[0] == params@[0]@);
    let t = params[1].as_str();
    let n = t.unicode_len();
    if !(n >= 2 && t.get_char(0) == '\u{1}' && t.get_char(n - 1) == '\u{1}') {
        return (LineCommand::Named(name.to_owned()), params);
    }
    let inner = t.substring_char(1, n - 1);
    let (cmd, text) = split_at_char(inner, ' ');
    let dst = copy_text(&params[0]);
    let action = privmsg && same_text(cmd, "ACTION");
    let text_owned = match text {
        Some(x) => x.to_owned(),
        None => String::new(),
    };
    assert(text_owned@ =~= split_on(inner@, ' ').1);
    if action {
        return (LineCommand::Action(dst), single(text_owned));
    }
    let rest = match text {
        Some(_) => single(text_owned),
        None => {
            let v: Vec<String> = Vec::new();
            assert(texts(v@) =~= Seq::<Seq<char>>::empty());
            v
        },
    };
    if privmsg {
        (LineCommand::Ctcp(cmd.to_owned(), dst), rest)
    } else {
        (LineCommand::CtcpReply(cmd.to_owned(), dst), rest)
    }
}

/// The line that a text received from the server stands for; `None` when
/// it holds no command. Trailing line ends are the caller's to strip.
pub fn parse_wire_line(l: &str) -> (r: Option<Line>)
    ensures
        match r {
            None => wire_spec(l@) is None,
            Some(line) => wire_spec(l@) == Some(line_view(line)),
        },
{
    let n = l.unicode_len();
    let has_prefix = n > 0 && l.get_char(0) == ':';
    let (prefix, body) = if has_prefix {
        let after = l.substring_char(1, n);
        assert(after@ =~= l@.drop_first());
        let (p, rest) = split_at_char(after, ' ');
        let body = match rest {
            Some(b) => b,
            None => after.substring_char(after.unicode_len(), after.unicode_len()),
        };
        assert(body@ =~= split_on(l@.drop_first(), ' ').1);
        (Some(parse_user(p)), body)
    } else {
        (None, l)
    };
    let mut ws = split_words(body);
    if ws.len() == 0 {
        return None;
    }
    let ghost all = ws@;
    let name = ws.remove(0);
    proof {
        assert(ws@ =~= all.drop_first());
        assert(texts(ws@) =~= texts(all).drop_first());
        assert(texts(all)[0] == name@);
    }
    let (command, args) = classify_line(name.as_str(), ws);
    Some(Line { command, args, prefix })
}

/// The protocol line that sends a command to the server; the reload is no
/// protocol command.
pub open spec fn command_line_spec(c: CommandView) -> Option<Seq<char>> {
    match c {
        CommandView::Msg { dst, text } => Some("PRIVMSG "@ + dst + " :"@ + text),
        CommandView::Join { chans, keys } => Some(
            match keys {
                None => "JOIN "@ + chans,
                Some(k) => "JOIN "@ + chans + " "@ + k,
            },
        ),
        CommandView::Part { chans, msg } => Some(
            match msg {
                None => "PART "@ + chans,
                Some(m) => "PART "@ + chans + " :"@ + m,
            },
        ),
        CommandView::Quit { msg } => Some(
            match msg {
                None => "QUIT"@,
                Some(m) => "QUIT :"@ + m,
            },
        ),
        CommandView::Raw { text } => Some(text),
        CommandView::Reload => None,
    }
}

/// The protocol line that sends `c` to the server.
pub fn command_line(c: &Command) -> (r: Option<String>)
    ensures
        match r {
            None => command_line_spec(c@) is None,
            Some(t) => command_line_spec(c@) == Some(t@),
        },
{
    match c {
        Command::Msg { dst, text } => {
            let mut r = String::from_str("PRIVMSG ");
            r.append(dst.as_str());
            r.append(" :");
            r.append(text.as_str());
            Some(r)
        },
        Command::Join { chans, keys } => {
            let mut r = String::from_str("JOIN ");
            r.append(chans.as_str());
            match keys {
                None => {},
                Some(k) => {
                    r.append(" ");
                    r.append(k.as_str());
                },
            }
            Some(r)
        },
        Command::Part { chans, msg } => {
            let mut r = String::from_str("PART ");
            r.append(chans.as_str());
            match msg {
                None => {},
                Some(m) => {
                    r.append(" :");
                    r.append(m.as_str());
                },
            }
            Some(r)
        },
        Command::Quit { msg } => match msg {
            None => Some(String::from_str("QUIT")),
            Some(m) => {
                let mut r = String::from_str("QUIT :");
                r.append(m.as_str());
                Some(r)
            },
        },
        Command::Raw { text } => Some(copy_text(text)),
        Command::Reload => None,
    }
}

/// The reply that keeps the session alive: a `PING` is answered with a
/// `PONG` that carries its first argument back.
pub open spec fn keepalive_spec(l: LineView) -> Option<Seq<char>> {
    if l.command == LineCommandView::Named("PING"@) {
        Some("PONG :"@ + if l.args.len() > 0 {
            l.args[0]
        } else {
            Seq::empty()
        })
    } else {
        None
    }
}

/// The reply that a received line asks for to keep the session alive.
pub fn keepalive_reply(l: &Line) -> (r: Option<String>)
    ensures
        match r {
            None => keepalive_spec(line_view(*l)) is None,
            Some(t) => keepalive_spec(line_view(*l)) == Some(t@),
        },
{
    let ping = match &l.command {
        LineCommand::Named(n) => same_text(n.as_str(), "PING"),
        _ => false,
    };
    if !ping {
        return None;
    }
    let mut r = String::from_str("PONG :");
    if l.args.len() > 0 {
        assert(texts(l.args@)[0] == l.args@[0]@);
        r.append(l.args[0].as_str());
    } else {
        assert(r@ =~= "PONG :"@ + Seq::<char>::empty());
    }
    Some(r)
}

} // verus!

//! Operator commands typed on standard input, one per line, prefixed by `/`:
//! `/msg <dst> <text>`, `/join <chans> [keys]`, `/part <chans> [msg]`,
//! `/quit [msg]`, `/raw <text>` and `/reload`.

use vstd::prelude::*;

verus! {

/// A deferred action against the live session. It owns its payload, so it
/// can cross from a producer to the session loop.
#[derive(Clone, Debug, PartialEq, Eq)]
pub enum Command {
    /// Send `text` to `dst`.
    Msg { dst: String, text: String },
    /// Join the comma-separated channels, with optional keys.
    Join { chans: String, keys: Option<String> },
    /// Leave the comma-separated channels, with an optional message.
    Part { chans: String, msg: Option<String> },
    /// Quit the session, with an optional message.
    Quit { msg: Option<String> },
    /// Send a raw protocol line.
    Raw { text: String },
    /// Discard the script runtime and load the plugins anew.
    Reload,
}

/// The value of a [`Command`], with its texts as character sequences.
pub enum CommandView {
    Msg { dst: Seq<char>, text: Seq<char> },
    Join { chans: Seq<char>, keys: Option<Seq<char>> },
    Part { chans: Seq<char>, msg: Option<Seq<char>> },
    Quit { msg: Option<Seq<char>> },
    Raw { text: Seq<char> },
    Reload,
}

pub open spec fn opt_text(o: Option<String>) -> Option<Seq<char>> {
    match o {
        None => None,
        Some(s) => Some(s@),
    }
}

impl View for Command {
    type V = CommandView;

    open spec fn view(&self) -> CommandView {
        match self {
            Command::Msg { dst, text } => CommandView::Msg { dst: dst@, text: text@ },
            Command::Join { chans, keys } => CommandView::Join { chans: chans@, keys: opt_text(*keys) },
            Command::Part { chans, msg } => CommandView::Part { chans: chans@, msg: opt_text(*msg) },
            Command::Quit { msg } => CommandView::Quit { msg: opt_text(*msg) },
            Command::Raw { text } => CommandView::Raw { text: text@ },
            Command::Reload => CommandView::Reload,
        }
    }
}

/// The value of a parse result.
pub open spec fn parsed(o: Option<Command>) -> Option<CommandView> {
    match o {
        None => None,
        Some(c) => Some(c@),
    }
}

/// Unicode white space, as `char::is_whitespace` defines it.
pub open spec fn is_white(c: char) -> bool {
    let u = c as u32;
    (0x09 <= u <= 0x0d) || u == 0x20 || u == 0x85 || u == 0xa0 || u == 0x1680 || (0x2000 <= u
        <= 0x200a) || u == 0x2028 || u == 0x2029 || u == 0x202f || u == 0x205f || u == 0x3000
}

/// `s` without its leading white space.
pub open spec fn trim_start(s: Seq<char>) -> Seq<char>
    decreases s.len(),
{
    if s.len() > 0 && is_white(s[0]) {
        trim_start(s.drop_first())
    } else {
        s
    }
}

pub open spec fn is_line_end(c: char) -> bool {
    c == '\r' || c == '\n'
}

/// `s` without its trailing carriage returns and line feeds.
pub open spec fn trim_line_end(s: Seq<char>) -> Seq<char>
    decreases s.len(),
{
    if s.len() > 0 && is_line_end(s.last()) {
        trim_line_end(s.drop_last())
    } else {
        s
    }
}

/// `s` cut at its first `sep`: the text before it and the text after it.
/// Without one the second part is empty.
pub open spec fn split_on(s: Seq<char>, sep: char) -> (Seq<char>, Seq<char>)
    decreases s.len(),
{
    if s.len() == 0 {
        (s, s)
    } else if s[0] == sep {
        (Seq::empty(), s.drop_first())
    } else {
        let (a, b) = split_on(s.drop_first(), sep);
        (seq![s[0]] + a, b)
    }
}

/// `s` cut at its first space.
pub open spec fn split_space(s: Seq<char>) -> (Seq<char>, Seq<char>) {
    split_on(s, ' ')
}

/// Whether `s` holds `c`.
pub open spec fn holds(s: Seq<char>, c: char) -> bool {
    exists|i: int| 0 <= i < s.len() && s[i] == c
}

/// The first word of `s` after its leading white space, and the rest.
pub open spec fn word_spec(s: Seq<char>) -> (Seq<char>, Seq<char>) {
    split_space(trim_start(s))
}

pub open spec fn non_empty(s: Seq<char>) -> Option<Seq<char>> {
    if s.len() == 0 {
        None
    } else {
        Some(s)
    }
}

pub open spec fn msg_spec(s: Seq<char>) -> Option<CommandView> {
    let (dst, text) = word_spec(s);
    if dst.len() == 0 || text.len() == 0 {
        None
    } else {
        Some(CommandView::Msg { dst, text })
    }
}

pub open spec fn join_spec(s: Seq<char>) -> Option<CommandView> {
    let (chans, rest) = word_spec(s);
    if chans.len() == 0 {
        None
    } else {
        Some(CommandView::Join { chans, keys: non_empty(trim_start(rest)) })
    }
}

pub open spec fn part_spec(s: Seq<char>) -> Option<CommandView> {
    let (chans, msg) = word_spec(s);
    if chans.len() == 0 {
        None
    } else {
        Some(CommandView::Part { chans, msg: non_empty(msg) })
    }
}

pub open spec fn quit_spec(s: Seq<char>) -> Option<CommandView> {
    Some(CommandView::Quit { msg: non_empty(trim_start(s)) })
}

pub open spec fn raw_spec(s: Seq<char>) -> Option<CommandView> {
    Some(CommandView::Raw { text: s })
}

/// The command that an input line stands for, if any.
pub open spec fn line_spec(line: Seq<char>) -> Option<CommandView> {
    if line.len() == 0 || line[0] != '/' {
        None
    } else {
        let (name, rest) = split_space(trim_line_end(line).drop_first());
        if name == seq!['m', 's', 'g'] {
            msg_spec(rest)
        } else if name == seq!['j', 'o', 'i', 'n'] {
            join_spec(rest)
        } else if name == seq!['p', 'a', 'r', 't'] {
            part_spec(rest)
        } else if name == seq!['q', 'u', 'i', 't'] {
            quit_spec(rest)
        } else if name == seq!['r', 'a', 'w'] {
            raw_spec(rest)
        } else if name == seq!['r', 'e', 'l', 'o', 'a', 'd'] {
            Some(CommandView::Reload)
        } else {
            None
        }
    }
}

proof fn lemma_trim_start_from(s: Seq<char>, i: int)
    requires
        0 <= i <= s.len(),
        forall|j: int| 0 <= j < i ==> is_white(#[trigger] s[j]),
    ensures
        trim_start(s) == trim_start(s.subrange(i, s.len() as int)),
    decreases i,
{
    if i == 0 {
        assert(s.subrange(0, s.len() as int) =~= s);
    } else {
        assert(is_white(s[0]));
        let t = s.drop_first();
        assert forall|j: int| 0 <= j < i - 1 implies is_white(#[trigger] t[j]) by {
            assert(t[j] == s[j + 1]);
        }
        lemma_trim_start_from(t, i - 1);
        assert(t.subrange(i - 1, t.len() as int) =~= s.subrange(i, s.len() as int));
    }
}

proof fn lemma_trim_line_end_to(s: Seq<char>, k: int)
    requires
        0 <= k <= s.len(),
        forall|j: int| k <= j < s.len() ==> is_line_end(#[trigger] s[j]),
    ensures
        trim_line_end(s) == trim_line_end(s.subrange(0, k)),
    decreases s.len() - k,
{
    if k == s.len() {
        assert(s.subrange(0, k) =~= s);
    } else {
        let t = s.drop_last();
        assert forall|j: int| k <= j < t.len() implies is_line_end(#[trigger] t[j]) by {
            assert(t[j] == s[j]);
        }
        lemma_trim_line_end_to(t, k);
        assert(t.subrange(0, k) =~= s.subrange(0, k));
    }
}

proof fn lemma_split_on_from(s: Seq<char>, sep: char, i: int)
    requires
        0 <= i <= s.len(),
        forall|j: int| 0 <= j < i ==> #[trigger] s[j] != sep,
    ensures
        split_on(s, sep).0 == s.subrange(0, i) + split_on(s.subrange(i, s.len() as int), sep).0,
        split_on(s, sep).1 == split_on(s.subrange(i, s.len() as int), sep).1,
    decreases i,
{
    if i == 0 {
        assert(s.subrange(0, s.len() as int) =~= s);
        assert(s.subrange(0, 0) + split_on(s, sep).0 =~= split_on(s, sep).0);
    } else {
        let t = s.drop_first();
        assert(s[0] != sep);
        assert forall|j: int| 0 <= j < i - 1 implies #[trigger] t[j] != sep by {
            assert(t[j] == s[j + 1]);
        }
        lemma_split_on_from(t, sep, i - 1);
        assert(t.subrange(i - 1, t.len() as int) =~= s.subrange(i, s.len() as int));
        assert(seq![s[0]] + t.subrange(0, i - 1) =~= s.subrange(0, i));
        assert(seq![s[0]] + (t.subrange(0, i - 1) + split_on(t.subrange(i - 1, t.len() as int), sep).0)
            =~= s.subrange(0, i) + split_on(s.subrange(i, s.len() as int), sep).0);
    }
}

/// Whether `c` is Unicode white space.
pub fn is_white_char(c: char) -> (r: bool)
    ensures
        r == is_white(c),
{
    let u = c as u32;
    (0x09 <= u && u <= 0x0d) || u == 0x20 || u == 0x85 || u == 0xa0 || u == 0x1680 || (0x2000 <= u
        && u <= 0x200a) || u == 0x2028 || u == 0x2029 || u == 0x202f || u == 0x205f || u == 0x3000
}

/// `s` without its leading white space.
pub fn skip_white(s: &str) -> (r: &str)
    ensures
        r@ == trim_start(s@),
{
    let n = s.unicode_len();
    let mut i: usize = 0;
    while i < n && is_white_char(s.get_char(i))
        invariant
            n == s@.len(),
            i <= n,
            forall|j: int| 0 <= j < i ==> is_white(#[trigger] s@[j]),
        decreases n - i,
    {
        i = i + 1;
    }
    proof {
        lemma_trim_start_from(s@, i as int);
        let rest = s@.subrange(i as int, n as int);
        if i < n {
            assert(rest[0] == s@[i as int]);
        }
    }
    s.substring_char(i, n)
}

/// `s` without its trailing carriage returns and line feeds.
pub fn strip_line_end(s: &str) -> (r: &str)
    ensures
        r@ == trim_line_end(s@),
{
    let n = s.unicode_len();
    let mut k: usize = n;
    while k > 0 && (s.get_char(k - 1) == '\r' || s.get_char(k - 1) == '\n')
        invariant
            n == s@.len(),
            k <= n,
            forall|j: int| k <= j < n ==> is_line_end(#[trigger] s@[j]),
        decreases k,
    {
        k = k - 1;
    }
    proof {
        lemma_trim_line_end_to(s@, k as int);
        let head = s@.subrange(0, k as int);
        if k > 0 {
            assert(head.last() == s@[k - 1]);
        }
    }
    s.substring_char(0, k)
}

/// `s` cut at its first `sep`; the second part is `None` when `s` holds
/// no `sep`.
pub fn split_at_char(s: &str, sep: char) -> (r: (&str, Option<&str>))
    ensures
        r.0@ == split_on(s@, sep).0,
        r.1 is Some <==> holds(s@, sep),
        r.1 matches Some(t) ==> t@ == split_on(s@, sep).1,
        r.1 is None ==> split_on(s@, sep).1.len() == 0,
{
    let n = s.unicode_len();
    let mut i: usize = 0;
    while i < n && s.get_char(i) != sep
        invariant
            n == s@.len(),
            i <= n,
            forall|j: int| 0 <= j < i ==> #[trigger] s@[j] != sep,
        decreases n - i,
    {
        i = i + 1;
    }
    proof {
        lemma_split_on_from(s@, sep, i as int);
        let rest = s@.subrange(i as int, n as int);
        if i < n {
            assert(rest[0] == sep);
            assert(rest.drop_first() =~= s@.subrange(i + 1, n as int));
        } else {
            assert(!holds(s@, sep));
        }
        assert(s@.subrange(0, i as int) + Seq::<char>::empty() =~= s@.subrange(0, i as int));
    }
    if i < n {
        (s.substring_char(0, i), Some(s.substring_char(i + 1, n)))
    } else {
        (s.substring_char(0, i), None)
    }
}

/// `s` cut at its first space.
pub fn split_at_space(s: &str) -> (r: (&str, &str))
    ensures
        (r.0@, r.1@) == split_space(s@),
{
    let (a, b) = split_at_char(s, ' ');
    match b {
        Some(t) => (a, t),
        None => (a, s.substring_char(s.unicode_len(), s.unicode_len())),
    }
}

/// Whether two texts are the same.
pub fn same_text(a: &str, b: &str) -> (r: bool)
    ensures
        r == (a@ == b@),
{
    let n = a.unicode_len();
    if n != b.unicode_len() {
        return false;
    }
    let mut i: usize = 0;
    while i < n
        invariant
            n == a@.len(),
            n == b@.len(),
            i <= n,
            forall|j: int| 0 <= j < i ==> a@[j] == b@[j],
        decreases n - i,
    {
        if a.get_char(i) != b.get_char(i) {
            return false;
        }
        i = i + 1;
    }
    assert(a@ =~= b@);
    true
}

fn owned_non_empty(s: &str) -> (r: Option<String>)
    ensures
        opt_text(r) == non_empty(s@),
{
    if s.unicode_len() == 0 {
        None
    } else {
        Some(s.to_owned())
    }
}

/// The first word of `line` after its leading white space, and the text after
/// the space that ends it.
pub fn parse_word(line: &str) -> (r: (&str, &str))
    ensures
        (r.0@, r.1@) == word_spec(line@),
{
    split_at_space(skip_white(line))
}

/// `/msg <dst> <text>`: both parts are required.
pub fn cmd_msg(line: &str) -> (r: Option<Command>)
    ensures
        parsed(r) == msg_spec(line@),
{
    let (dst, msg) = parse_word(line);
    if dst.unicode_len() == 0 || msg.unicode_len() == 0 {
        return None;
    }
    Some(Command::Msg { dst: dst.to_owned(), text: msg.to_owned() })
}

/// `/join <chans> [keys]`: the channels are required.
pub fn cmd_join(line: &str) -> (r: Option<Command>)
    ensures
        parsed(r) == join_spec(line@),
{
    let (chans, rest) = parse_word(line);
    let keys = skip_white(rest);
    if chans.unicode_len() == 0 {
        return None;
    }
    Some(Command::Join { chans: chans.to_owned(), keys: owned_non_empty(keys) })
}

/// `/part <chans> [msg]`: the channels are required.
pub fn cmd_part(line: &str) -> (r: Option<Command>)
    ensures
        parsed(r) == part_spec(line@),
{
    let (chans, msg) = parse_word(line);
    if chans.unicode_len() == 0 {
        return None;
    }
    Some(Command::Part { chans: chans.to_owned(), msg: owned_non_empty(msg) })
}

/// `/quit [msg]`.
pub fn cmd_quit(line: &str) -> (r: Option<Command>)
    ensures
        parsed(r) == quit_spec(line@),
{
    Some(Command::Quit { msg: owned_non_empty(skip_white(line)) })
}

/// `/raw <text>`: the text is sent as it stands.
pub fn cmd_raw(line: &str) -> (r: Option<Command>)
    ensures
        parsed(r) == raw_spec(line@),
{
    Some(Command::Raw { text: line.to_owned() })
}

/// `/reload`: whatever follows is ignored.
pub fn cmd_reload(line: &str) -> (r: Option<Command>)
    ensures
        parsed(r) == Some(CommandView::Reload),
{
    Some(Command::Reload)
}

/// The command that an input line stands for. Lines that do not start with
/// `/`, unknown command names and malformed commands give `None`.
pub fn parse_line(line: &str) -> (r: Option<Command>)
    ensures
        parsed(r) == line_spec(line@),
{
    let n = line.unicode_len();
    if n == 0 || line.get_char(0) != '/' {
        return None;
    }
    let body = strip_line_end(line);
    proof {
        lemma_trim_line_end_keeps_first(line@);
    }
    let m = body.unicode_len();
    let (name, rest) = split_at_space(body.substring_char(1, m));
    assert(body@.subrange(1, m as int) =~= body@.drop_first());
    proof {
        reveal_strlit("msg");
        reveal_strlit("join");
        reveal_strlit("part");
        reveal_strlit("quit");
        reveal_strlit("raw");
        reveal_strlit("reload");
        assert("msg"@ =~= seq!['m', 's', 'g']);
        assert("join"@ =~= seq!['j', 'o', 'i', 'n']);
        assert("part"@ =~= seq!['p', 'a', 'r', 't']);
        assert("quit"@ =~= seq!['q', 'u', 'i', 't']);
        assert("raw"@ =~= seq!['r', 'a', 'w']);
        assert("reload"@ =~= seq!['r', 'e', 'l', 'o', 'a', 'd']);
    }
    if same_text(name, "msg") {
        cmd_msg(rest)
    } else if same_text(name, "join") {
        cmd_join(rest)
    } else if same_text(name, "part") {
        cmd_part(rest)
    } else if same_text(name, "quit") {
        cmd_quit(rest)
    } else if same_text(name, "raw") {
        cmd_raw(rest)
    } else if same_text(name, "reload") {
        cmd_reload(rest)
    } else {
        None
    }
}

/// Trimming line ends keeps a first character that is no line end.
proof fn lemma_trim_line_end_keeps_first(s: Seq<char>)
    requires
        s.len() > 0,
        !is_line_end(s[0]),
    ensures
        trim_line_end(s).len() > 0,
        trim_line_end(s)[0] == s[0],
    decreases s.len(),
{
    if s.len() > 1 && is_line_end(s.last()) {
        lemma_trim_line_end_keeps_first(s.drop_last());
    }
}

} // verus!

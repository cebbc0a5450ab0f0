use vstd::prelude::*;
use crate::text::{push_char, trim_text, trimmed};

verus! {

/// The text with each line feed written as the two characters `\` and `n`.
pub open spec fn escaped(s: Seq<char>) -> Seq<char>
    decreases s.len(),
{
    if s.len() == 0 {
        Seq::<char>::empty()
    } else {
        (if s[0] == '\n' { seq!['\\', 'n'] } else { seq![s[0]] }) + escaped(s.drop_first())
    }
}

/// The text with each pair `\` `n`, read left to right, turned back into a line feed.
pub open spec fn unescaped(s: Seq<char>) -> Seq<char>
    decreases s.len(),
{
    if s.len() == 0 {
        Seq::<char>::empty()
    } else if s.len() >= 2 && s[0] == '\\' && s[1] == 'n' {
        seq!['\n'] + unescaped(s.subrange(2, s.len() as int))
    } else {
        seq![s[0]] + unescaped(s.drop_first())
    }
}

/// Whether the text already holds a backslash followed by `n`.
pub open spec fn has_escape_pair(s: Seq<char>) -> bool {
    exists|i: int| 0 <= i < s.len() - 1 && s[i] == '\\' && #[trigger] s[i + 1] == 'n'
}

pub open spec fn ping_line() -> Seq<char> {
    seq!['P', 'I', 'N', 'G']
}

pub open spec fn pong_line() -> Seq<char> {
    seq!['P', 'O', 'N', 'G']
}

pub open spec fn get_config_line() -> Seq<char> {
    seq!['G', 'E', 'T', ' ', 'C', 'O', 'N', 'F', 'I', 'G']
}

/// The number of line feeds.
pub open spec fn count_line_feeds(s: Seq<char>) -> nat
    decreases s.len(),
{
    if s.len() == 0 {
        0
    } else {
        (if s[0] == '\n' { 1nat } else { 0nat }) + count_line_feeds(s.drop_first())
    }
}

/// The number of places where a backslash is followed by `n`.
pub open spec fn count_escape_pairs(s: Seq<char>) -> nat
    decreases s.len(),
{
    if s.len() < 2 {
        0
    } else {
        (if s[0] == '\\' && s[1] == 'n' { 1nat } else { 0nat }) + count_escape_pairs(s.drop_first())
    }
}

/// Escaping a text without escape pairs of its own gives one pair per line
/// feed, and none besides.
pub proof fn lemma_escape_pair_count(s: Seq<char>)
    requires
        !has_escape_pair(s),
    ensures
        count_escape_pairs(escaped(s)) == count_line_feeds(s),
    decreases s.len(),
{
    if s.len() > 0 {
        let rest = s.drop_first();
        assert(!has_escape_pair(rest)) by {
            if has_escape_pair(rest) {
                let i = choose|i: int|
                    0 <= i < rest.len() - 1 && rest[i] == '\\' && #[trigger] rest[i + 1] == 'n';
                assert(s[i + 1] == '\\' && s[(i + 1) + 1] == 'n');
            }
        }
        lemma_escape_pair_count(rest);
        let e = escaped(rest);
        let x = escaped(s);
        if s[0] == '\n' {
            assert(x =~= seq!['\\', 'n'] + e);
            assert(x.drop_first() =~= seq!['n'] + e);
            assert(x.drop_first().drop_first() =~= e);
            assert(count_escape_pairs(x.drop_first()) == count_escape_pairs(e));
        } else {
            assert(x =~= seq![s[0]] + e);
            assert(x.drop_first() =~= e);
            if s[0] == '\\' && x.len() >= 2 && x[1] == 'n' {
                assert(e[0] == 'n');
                assert(rest[0] == 'n');
                assert(s[0int + 1] == 'n');
                assert(has_escape_pair(s));
            }
        }
    }
}

/// Escaping leaves no line feed behind, so the reply is a single line.
pub proof fn lemma_escaped_has_no_line_feed(s: Seq<char>)
    ensures
        forall|i: int| 0 <= i < escaped(s).len() ==> escaped(s)[i] != '\n',
    decreases s.len(),
{
    if s.len() > 0 {
        let rest = s.drop_first();
        lemma_escaped_has_no_line_feed(rest);
        let head = if s[0] == '\n' { seq!['\\', 'n'] } else { seq![s[0]] };
        assert(escaped(s) == head + escaped(rest));
        assert forall|i: int| 0 <= i < escaped(s).len() implies escaped(s)[i] != '\n' by {
            if i >= head.len() {
                assert(escaped(s)[i] == escaped(rest)[i - head.len()]);
            }
        }
    }
}

/// Escaping by the server and unescaping by the client give back the text,
/// for every text that does not itself hold a backslash followed by `n`.
pub proof fn lemma_escape_round_trip(s: Seq<char>)
    requires
        !has_escape_pair(s),
    ensures
        unescaped(escaped(s)) == s,
    decreases s.len(),
{
    if s.len() == 0 {
        assert(escaped(s) =~= Seq::<char>::empty());
    } else {
        let rest = s.drop_first();
        assert(!has_escape_pair(rest)) by {
            if has_escape_pair(rest) {
                let i = choose|i: int|
                    0 <= i < rest.len() - 1 && rest[i] == '\\' && #[trigger] rest[i + 1] == 'n';
                assert(s[i + 1] == '\\' && s[(i + 1) + 1] == 'n');
            }
        }
        lemma_escape_round_trip(rest);
        let e = escaped(rest);
        let x = escaped(s);
        if s[0] == '\n' {
            assert(x =~= seq!['\\', 'n'] + e);
            assert(x.subrange(2, x.len() as int) =~= e);
            assert(unescaped(x) == seq!['\n'] + unescaped(e));
            assert(seq!['\n'] + rest =~= s);
        } else {
            assert(x =~= seq![s[0]] + e);
            if s[0] == '\\' && x.len() >= 2 && x[1] == 'n' {
                assert(rest.len() > 0);
                assert(e[0] == 'n');
                assert(rest[0] == 'n');
                assert(s[0int + 1] == 'n');
                assert(has_escape_pair(s));
            }
            assert(x.drop_first() =~= e);
            assert(seq![s[0]] + rest =~= s);
        }
    }
}

/// Each line feed of `s` escaped, as the server sends the configuration text.
pub fn escape_newlines(s: &str) -> (r: String)
    ensures
        r@ == escaped(s@),
{
    let n = s.unicode_len();
    let mut r = String::new();
    let mut i: usize = 0;
    assert(s@.subrange(0, n as int) =~= s@);
    assert(r@ + escaped(s@) =~= escaped(s@));
    while i < n
        invariant
            n == s@.len(),
            i <= n,
            r@ + escaped(s@.subrange(i as int, n as int)) == escaped(s@),
        decreases n - i,
    {
        let ghost before = r@;
        let c = s.get_char(i);
        let ghost tail = s@.subrange(i as int, n as int);
        assert(tail.drop_first() =~= s@.subrange(i + 1, n as int));
        if c == '\n' {
            push_char(&mut r, '\\');
            push_char(&mut r, 'n');
            assert(r@ =~= before + seq!['\\', 'n']);
        } else {
            push_char(&mut r, c);
            assert(r@ =~= before + seq![c]);
        }
        assert(r@ + escaped(s@.subrange(i + 1, n as int)) =~= before + escaped(tail));
        i = i + 1;
    }
    assert(s@.subrange(n as int, n as int) =~= Seq::<char>::empty());
    assert(r@ + Seq::<char>::empty() =~= r@);
    r
}

/// Each escaped pair turned back into a line feed, as the client reads the reply.
pub fn unescape_newlines(s: &str) -> (r: String)
    ensures
        r@ == unescaped(s@),
{
    let n = s.unicode_len();
    let mut r = String::new();
    let mut i: usize = 0;
    assert(s@.subrange(0, n as int) =~= s@);
    assert(r@ + unescaped(s@) =~= unescaped(s@));
    while i < n
        invariant
            n == s@.len(),
            i <= n,
            r@ + unescaped(s@.subrange(i as int, n as int)) == unescaped(s@),
        decreases n - i,
    {
        let ghost before = r@;
        let ghost tail = s@.subrange(i as int, n as int);
        let c = s.get_char(i);
        if c == '\\' && i + 1 < n && s.get_char(i + 1) == 'n' {
            push_char(&mut r, '\n');
            assert(tail.subrange(2, tail.len() as int) =~= s@.subrange(i + 2, n as int));
            assert(r@ + unescaped(s@.subrange(i + 2, n as int)) =~= before + unescaped(tail));
            i = i + 2;
        } else {
            push_char(&mut r, c);
            assert(tail.drop_first() =~= s@.subrange(i + 1, n as int));
            assert(r@ + unescaped(s@.subrange(i + 1, n as int)) =~= before + unescaped(tail));
            i = i + 1;
        }
    }
    assert(s@.subrange(n as int, n as int) =~= Seq::<char>::empty());
    assert(r@ + Seq::<char>::empty() =~= r@);
    r
}

/// A command line that the server reads from a peer, without its line end.
#[derive(Clone, Copy, Debug, PartialEq, Eq, Structural)]
pub enum LineCommand {
    Ping,
    GetConfig,
    Unknown,
}

/// `PING` alone; anything that starts with `GET CONFIG`; else nothing known.
pub open spec fn command_of(line: Seq<char>) -> LineCommand {
    if line == ping_line() {
        LineCommand::Ping
    } else if line.len() >= 10 && line.subrange(0, 10) == get_config_line() {
        LineCommand::GetConfig
    } else {
        LineCommand::Unknown
    }
}

/// What the server makes of one line from a peer.
pub fn classify_command(line: &str) -> (r: LineCommand)
    ensures
        r == command_of(line@),
{
    let n = line.unicode_len();
    let is_ping = n == 4 && line.get_char(0) == 'P' && line.get_char(1) == 'I'
        && line.get_char(2) == 'N' && line.get_char(3) == 'G';
    proof {
        if n == 4 && line@ == ping_line() {
            assert(line@[0] == 'P' && line@[1] == 'I' && line@[2] == 'N' && line@[3] == 'G');
        }
        if is_ping {
            assert(line@ =~= ping_line());
        }
    }
    if is_ping {
        return LineCommand::Ping;
    }
    let is_get = n >= 10 && line.get_char(0) == 'G' && line.get_char(1) == 'E'
        && line.get_char(2) == 'T' && line.get_char(3) == ' ' && line.get_char(4) == 'C'
        && line.get_char(5) == 'O' && line.get_char(6) == 'N' && line.get_char(7) == 'F'
        && line.get_char(8) == 'I' && line.get_char(9) == 'G';
    proof {
        let p = line@.subrange(0, 10);
        if n >= 10 && p == get_config_line() {
            assert(p[0] == 'G' && p[1] == 'E' && p[2] == 'T' && p[3] == ' ' && p[4] == 'C');
            assert(p[5] == 'O' && p[6] == 'N' && p[7] == 'F' && p[8] == 'I' && p[9] == 'G');
        }
        if is_get {
            assert(p =~= get_config_line());
        }
    }
    if is_get {
        LineCommand::GetConfig
    } else {
        LineCommand::Unknown
    }
}

/// The server's answer to one line, `None` where it stays silent: `PONG` to a
/// ping, the escaped configuration text to a request for it, each ended by a
/// line feed.
pub fn reply_to(line: &str, config_text: &str) -> (r: Option<String>)
    ensures
        command_of(line@) == LineCommand::Ping ==> r.is_some() && r.unwrap()@ == pong_line().push('\n'),
        command_of(line@) == LineCommand::GetConfig ==> r.is_some() && r.unwrap()@ == escaped(config_text@).push('\n'),
        command_of(line@) == LineCommand::Unknown ==> r.is_none(),
{
    match classify_command(line) {
        LineCommand::Ping => {
            let mut t = String::new();
            push_char(&mut t, 'P');
            push_char(&mut t, 'O');
            push_char(&mut t, 'N');
            push_char(&mut t, 'G');
            push_char(&mut t, '\n');
            assert(t@ =~= pong_line().push('\n'));
            Some(t)
        },
        LineCommand::GetConfig => {
            let mut t = escape_newlines(config_text);
            push_char(&mut t, '\n');
            Some(t)
        },
        LineCommand::Unknown => None,
    }
}

/// Whether a reply line, trimmed, is `PONG`.
pub fn is_pong(line: &str) -> (r: bool)
    ensures
        r == (trimmed(line@) == pong_line()),
{
    let t = trim_text(line);
    let s = t.as_str();
    let r = s.unicode_len() == 4 && s.get_char(0) == 'P' && s.get_char(1) == 'O'
        && s.get_char(2) == 'N' && s.get_char(3) == 'G';
    proof {
        if t@ == pong_line() {
            assert(t@[0] == 'P' && t@[1] == 'O' && t@[2] == 'N' && t@[3] == 'G');
        }
        if r {
            assert(t@ =~= pong_line());
        }
    }
    r
}

/// The configuration text in a reply line: trimmed and unescaped; `None`
/// where nothing is left.
pub fn decode_config_reply(line: &str) -> (r: Option<String>)
    ensures
        unescaped(trimmed(line@)).len() == 0 ==> r.is_none(),
        unescaped(trimmed(line@)).len() > 0 ==> r.is_some() && r.unwrap()@ == unescaped(trimmed(line@)),
{
    let t = trim_text(line);
    let u = unescape_newlines(t.as_str());
    if u.as_str().unicode_len() == 0 {
        None
    } else {
        Some(u)
    }
}

/// The probe a client sends: `PING` and a line feed.
pub fn ping_request() -> (r: String)
    ensures
        r@ == ping_line().push('\n'),
{
    let mut t = String::new();
    push_char(&mut t, 'P');
    push_char(&mut t, 'I');
    push_char(&mut t, 'N');
    push_char(&mut t, 'G');
    push_char(&mut t, '\n');
    assert(t@ =~= ping_line().push('\n'));
    t
}

/// The request for a peer's configuration: `GET CONFIG` and a line feed.
pub fn config_request() -> (r: String)
    ensures
        r@ == get_config_line().push('\n'),
{
    let mut t = String::new();
    push_char(&mut t, 'G');
    push_char(&mut t, 'E');
    push_char(&mut t, 'T');
    push_char(&mut t, ' ');
    push_char(&mut t, 'C');
    push_char(&mut t, 'O');
    push_char(&mut t, 'N');
    push_char(&mut t, 'F');
    push_char(&mut t, 'I');
    push_char(&mut t, 'G');
    push_char(&mut t, '\n');
    assert(t@ =~= get_config_line().push('\n'));
    t
}

/// How reading the answer to a probe ended.
pub enum ReadOutcome {
    Line(String),
    TimedOut,
    Failed,
}

/// What a probe concludes of a peer.
#[derive(Clone, Copy, Debug, PartialEq, Eq, Structural)]
pub enum ProbeVerdict {
    Alive,
    Dead,
    /// Dead, and its stream is to be dropped from the pool.
    DeadEvict,
}

/// Alive on a `PONG` line; dead on a timeout or another line; dead and
/// evicted on a read error.
pub fn ping_verdict(outcome: &ReadOutcome) -> (r: ProbeVerdict)
    ensures
        outcome matches ReadOutcome::Line(l) ==> (r == if trimmed(l@) == pong_line() {
            ProbeVerdict::Alive
        } else {
            ProbeVerdict::Dead
        }),
        outcome matches ReadOutcome::TimedOut ==> r == ProbeVerdict::Dead,
        outcome matches ReadOutcome::Failed ==> r == ProbeVerdict::DeadEvict,
{
    match outcome {
        ReadOutcome::Line(l) => if is_pong(l.as_str()) {
            ProbeVerdict::Alive
        } else {
            ProbeVerdict::Dead
        },
        ReadOutcome::TimedOut => ProbeVerdict::Dead,
        ReadOutcome::Failed => ProbeVerdict::DeadEvict,
    }
}

/// How a zero-byte write on a pooled stream ended.
#[derive(Clone, Copy, Debug, PartialEq, Eq, Structural)]
pub enum WriteCheck {
    Written,
    WouldBlock,
    BrokenPipe,
    Failed,
}

/// A stream stays in use after a zero-byte write that went through or would
/// have blocked; any error else marks it dead.
pub fn stream_usable(check: WriteCheck) -> (r: bool)
    ensures
        r == (check == WriteCheck::Written || check == WriteCheck::WouldBlock),
{
    match check {
        WriteCheck::Written => true,
        WriteCheck::WouldBlock => true,
        WriteCheck::BrokenPipe => false,
        WriteCheck::Failed => false,
    }
}

/// Which stream a probe goes out on.
#[derive(Clone, Copy, Debug, PartialEq, Eq, Structural)]
pub enum StreamChoice {
    /// The pooled stream still works.
    Reuse,
    /// No pooled stream: open one.
    Open,
    /// The pooled stream is dead: drop its record, then open one.
    EvictAndOpen,
}

/// The first step of a probe, from the zero-byte write on the pooled stream
/// (`None` where the pool holds no open stream to the peer).
pub fn choose_stream(pooled: Option<WriteCheck>) -> (r: StreamChoice)
    ensures
        pooled.is_none() ==> r == StreamChoice::Open,
        pooled matches Some(c) ==> r == if c == WriteCheck::Written || c == WriteCheck::WouldBlock {
            StreamChoice::Reuse
        } else {
            StreamChoice::EvictAndOpen
        },
{
    match pooled {
        None => StreamChoice::Open,
        Some(c) => if stream_usable(c) {
            StreamChoice::Reuse
        } else {
            StreamChoice::EvictAndOpen
        },
    }
}

} // verus!

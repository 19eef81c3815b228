//! Remote shell sessions: the control messages host and client exchange,
//! the host's reading of typed commands out of the byte stream, and the
//! decisions taken on them. The PTY, the terminal and the QUIC streams are
//! the caller's part.

use vstd::prelude::*;
use crate::forward::{endpoint_fingerprint, session_fingerprint};
use crate::safety::{is_yes, is_yes_spec};
use crate::shell_config::{
    all_hits, blocking_pattern, first_hit, hits, lemma_first_hit_found, texts, CommandDisposition, ShellConfig,
};
use crate::text::{
    chars_of, decode_utf8_lossy, join_seq, join_strs, str_eq, to_lowercase, trim,
    trim_seq, unicode_lowercase, utf8_lossy,
};

verus! {

/// Shared over signalling so that the client can connect.
#[derive(Debug)]
pub struct ShellHandshake {
    pub endpoint_addr: String,
    pub session_fingerprint: String,
    pub token_type: String,
}

impl ShellHandshake {
    /// The handshake a host shares: its endpoint address, the fingerprint
    /// of its endpoint identity, and the kind of code it was made with.
    pub fn for_host(endpoint_id_text: &str, token_type: &str, endpoint_addr: String) -> (h: ShellHandshake)
        ensures
            h.endpoint_addr == endpoint_addr,
            h.session_fingerprint@ == endpoint_fingerprint(endpoint_id_text@),
            h.token_type@ == token_type@,
    {
        ShellHandshake {
            endpoint_addr,
            session_fingerprint: session_fingerprint(endpoint_id_text),
            token_type: token_type.to_owned(),
        }
    }
}

/// Messages on the control stream.
#[derive(Debug)]
pub enum ControlMsg {
    /// Host to client: approved; the shell is starting.
    Approved { shell: String },
    /// Host to client: declined.
    Rejected { reason: String },
    /// Host to client: a command was blocked.
    CommandBlocked { command: String, pattern: String },
    /// Host to client: a suspicious command was let through.
    SuspiciousAllowed { command: String, patterns: Vec<String> },
    /// Host to client: the host ended the session.
    HostKilled,
    /// Client to host: closing cleanly.
    ClientClosing,
    /// Host to client: terminal size.
    Resize { cols: u16, rows: u16 },
}

/// A line break in the typed stream.
pub open spec fn is_line_break(c: char) -> bool {
    c == '\r' || c == '\n'
}

/// The pending line and the commands completed after reading `cs` with
/// `buf` pending: at each line break the pending line, trimmed, is a
/// command if it is not empty, and the pending line starts over.
pub open spec fn feed_spec(buf: Seq<char>, cs: Seq<char>) -> (Seq<char>, Seq<Seq<char>>)
    decreases cs.len(),
{
    if cs.len() == 0 {
        (buf, seq![])
    } else {
        let prev = feed_spec(buf, cs.drop_last());
        let c = cs.last();
        if is_line_break(c) {
            let t = trim_seq(prev.0);
            (seq![], if t.len() > 0 { prev.1.push(t) } else { prev.1 })
        } else {
            (prev.0.push(c), prev.1)
        }
    }
}

/// Reads typed commands out of the client's stream.
pub struct LineInterceptor {
    pub line: Vec<char>,
}

impl LineInterceptor {
    pub fn new() -> (l: LineInterceptor)
        ensures
            l.line@ == Seq::<char>::empty(),
    {
        LineInterceptor { line: Vec::new() }
    }

    /// Reads `text`; returns the commands it completes, in order.
    pub fn feed(&mut self, text: &str) -> (cmds: Vec<String>)
        ensures
            (final(self).line@, cmds@.map_values(|c: String| c@)) == feed_spec(old(self).line@, text@),
    {
        let cs = chars_of(text);
        let mut cmds: Vec<String> = Vec::new();
        let mut i: usize = 0;
        while i < cs.len()
            invariant
                i <= cs@.len(),
                cs@ == text@,
                (self.line@, cmds@.map_values(|c: String| c@)) == feed_spec(old(self).line@, cs@.take(i as int)),
            decreases cs@.len() - i,
        {
            let c: char = cs[i];
            let ghost before = cmds@.map_values(|c: String| c@);
            proof {
                assert(cs@.take(i + 1).drop_last() == cs@.take(i as int));
                assert(cs@.take(i + 1).last() == c);
            }
            if c == '\r' || c == '\n' {
                let line_text = string_of(&self.line);
                let t = trim(line_text.as_str());
                let tc = chars_of(t.as_str());
                if tc.len() > 0 {
                    cmds.push(t);
                    assert(cmds@.map_values(|c: String| c@) =~= before.push(trim_seq(self.line@)));
                }
                self.line = Vec::new();
            } else {
                self.line.push(c);
            }
            i = i + 1;
        }
        assert(cs@.take(cs@.len() as int) == cs@);
        cmds
    }

    /// Reads raw bytes from the stream (decoded as `String::from_utf8_lossy`
    /// decodes them).
    pub fn feed_bytes(&mut self, bytes: &[u8]) -> (cmds: Vec<String>)
        ensures
            (final(self).line@, cmds@.map_values(|c: String| c@)) == feed_spec(old(self).line@, utf8_lossy(bytes@)),
    {
        let text = decode_utf8_lossy(bytes);
        self.feed(text.as_str())
    }
}

fn string_of(v: &Vec<char>) -> (s: String)
    ensures
        s@ == v@,
{
    crate::text::string_from_chars(v.as_slice())
}

proof fn lemma_feed_concat(buf: Seq<char>, x: Seq<char>, y: Seq<char>)
    ensures
        feed_spec(buf, x + y).0 == feed_spec(feed_spec(buf, x).0, y).0,
        feed_spec(buf, x + y).1 == feed_spec(buf, x).1 + feed_spec(feed_spec(buf, x).0, y).1,
    decreases y.len(),
{
    if y.len() == 0 {
        assert(x + y =~= x);
        assert(feed_spec(buf, x).1 + Seq::<Seq<char>>::empty() =~= feed_spec(buf, x).1);
    } else {
        lemma_feed_concat(buf, x, y.drop_last());
        assert((x + y).drop_last() =~= x + y.drop_last());
        assert((x + y).last() == y.last());
        let a = feed_spec(buf, x).1;
        let b = feed_spec(feed_spec(buf, x).0, y.drop_last()).1;
        let t = trim_seq(feed_spec(feed_spec(buf, x).0, y.drop_last()).0);
        assert((a + b).push(t) =~= a + b.push(t));
    }
}

/// The commands read from a stream do not depend on how the stream was cut
/// into chunks: reading `x` then `y` gives what reading `x + y` gives.
pub proof fn commands_ignore_chunking(buf: Seq<char>, x: Seq<char>, y: Seq<char>)
    ensures
        ({
            let first = feed_spec(buf, x);
            let second = feed_spec(first.0, y);
            feed_spec(buf, x + y) == (second.0, first.1 + second.1)
        }),
{
    lemma_feed_concat(buf, x, y);
}

/// The command and pattern of a `CommandBlocked` message.
pub open spec fn blocked_view(m: ControlMsg) -> (Seq<char>, Seq<char>) {
    match m {
        ControlMsg::CommandBlocked { command, pattern } => (command@, pattern@),
        _ => (seq![], seq![]),
    }
}

/// For each command that a blocking pattern hits, in order, the command
/// and that pattern.
pub open spec fn blocked_spec(c: ShellConfig, cmds: Seq<Seq<char>>) -> Seq<(Seq<char>, Seq<char>)>
    decreases cmds.len(),
{
    if cmds.len() == 0 {
        seq![]
    } else {
        let rest = blocked_spec(c, cmds.drop_last());
        match blocking_pattern(c, cmds.last()) {
            Some(p) => rest.push((cmds.last(), p)),
            None => rest,
        }
    }
}

/// What of the characters `cs`, typed with `buf` pending, goes on to the
/// shell, as (the part settled at line breaks, the part since the last
/// break): at a line break that completes a blocked command, the break and
/// the characters of that line typed since the previous break are held
/// back; everything else passes.
pub open spec fn pty_filter(c: ShellConfig, buf: Seq<char>, cs: Seq<char>) -> (Seq<char>, Seq<char>)
    decreases cs.len(),
{
    if cs.len() == 0 {
        (seq![], seq![])
    } else {
        let prev = pty_filter(c, buf, cs.drop_last());
        let ch = cs.last();
        if is_line_break(ch) {
            let t = trim_seq(feed_spec(buf, cs.drop_last()).0);
            if t.len() > 0 && blocking_pattern(c, t) is Some {
                (prev.0, seq![])
            } else {
                (prev.0 + prev.1.push(ch), seq![])
            }
        } else {
            (prev.0, prev.1.push(ch))
        }
    }
}

/// The text of a chunk that reaches the shell.
pub open spec fn pty_text(c: ShellConfig, buf: Seq<char>, cs: Seq<char>) -> Seq<char> {
    pty_filter(c, buf, cs).0 + pty_filter(c, buf, cs).1
}

fn copy_chars(v: &Vec<char>) -> (out: Vec<char>)
    ensures
        out@ == v@,
{
    let mut out: Vec<char> = Vec::new();
    let mut i: usize = 0;
    while i < v.len()
        invariant
            i <= v@.len(),
            out@ == v@.take(i as int),
        decreases v@.len() - i,
    {
        out.push(v[i]);
        i = i + 1;
        assert(out@ =~= v@.take(i as int));
    }
    assert(v@.take(v@.len() as int) == v@);
    out
}

fn filter_for_pty(config: &ShellConfig, start: Vec<char>, cs: &Vec<char>) -> (out: String)
    ensures
        out@ == pty_text(*config, start@, cs@),
{
    let ghost buf = start@;
    let mut line = start;
    let mut kept: Vec<char> = Vec::new();
    let mut seg: Vec<char> = Vec::new();
    let mut i: usize = 0;
    while i < cs.len()
        invariant
            i <= cs@.len(),
            line@ == feed_spec(buf, cs@.take(i as int)).0,
            (kept@, seg@) == pty_filter(*config, buf, cs@.take(i as int)),
        decreases cs@.len() - i,
    {
        let c: char = cs[i];
        proof {
            assert(cs@.take(i + 1).drop_last() == cs@.take(i as int));
            assert(cs@.take(i + 1).last() == c);
        }
        if c == '\r' || c == '\n' {
            let line_text = string_of(&line);
            let t = trim(line_text.as_str());
            let tc = chars_of(t.as_str());
            let blocked = tc.len() > 0 && config.is_blocked(t.as_str()).is_some();
            if blocked {
                seg = Vec::new();
            } else {
                let ghost k0 = kept@;
                let ghost s0 = seg@;
                kept.append(&mut seg);
                kept.push(c);
                assert(kept@ =~= k0 + s0.push(c));
            }
            line = Vec::new();
        } else {
            line.push(c);
            seg.push(c);
        }
        i = i + 1;
    }
    assert(cs@.take(cs@.len() as int) == cs@);
    let ghost k1 = kept@;
    let ghost s1 = seg@;
    kept.append(&mut seg);
    assert(kept@ =~= k1 + s1);
    crate::text::string_from_chars(kept.as_slice())
}

/// What the host does with one chunk typed by the client.
#[derive(Debug)]
pub struct HostChunk {
    /// Whether the chunk goes on to the shell as it came: only when it
    /// completes no blocked command.
    pub forward_to_pty: bool,
    /// What goes on to the shell otherwise: the chunk's text without the
    /// blocked lines (see `pty_text`).
    pub pty_text: String,
    /// The commands the chunk completes, for the live monitor.
    pub commands: Vec<String>,
    /// A `CommandBlocked` notice for each blocked command, for the client.
    pub blocked: Vec<ControlMsg>,
}

impl LineInterceptor {
    /// Reads a chunk typed by the client, checks every command it completes
    /// against the block lists, and says what of the chunk reaches the
    /// shell: all of it when no command in it is blocked, else its text
    /// without the blocked lines.
    pub fn intercept(&mut self, config: &ShellConfig, bytes: &[u8]) -> (h: HostChunk)
        ensures
            (final(self).line@, h.commands@.map_values(|c: String| c@)) == feed_spec(old(self).line@, utf8_lossy(bytes@)),
            h.pty_text@ == pty_text(*config, old(self).line@, utf8_lossy(bytes@)),
            h.blocked@.map_values(|m: ControlMsg| blocked_view(m)) == blocked_spec(*config, h.commands@.map_values(|c: String| c@)),
            forall|i: int| 0 <= i < h.blocked@.len() ==> h.blocked@[i] is CommandBlocked,
            h.forward_to_pty == (h.blocked@.len() == 0),
    {
        let text = decode_utf8_lossy(bytes);
        let cs = chars_of(text.as_str());
        let start = copy_chars(&self.line);
        let pty = filter_for_pty(config, start, &cs);
        let commands = self.feed(text.as_str());
        let ghost views = commands@.map_values(|c: String| c@);
        let mut blocked: Vec<ControlMsg> = Vec::new();
        let mut i: usize = 0;
        while i < commands.len()
            invariant
                i <= commands@.len(),
                views == commands@.map_values(|c: String| c@),
                blocked@.map_values(|m: ControlMsg| blocked_view(m)) == blocked_spec(*config, views.take(i as int)),
                forall|k: int| 0 <= k < blocked@.len() ==> blocked@[k] is CommandBlocked,
            decreases commands@.len() - i,
        {
            let ghost before = blocked@;
            proof {
                assert(views.take(i + 1).drop_last() == views.take(i as int));
                assert(views.take(i + 1).last() == commands@[i as int]@);
            }
            match config.is_blocked(commands[i].as_str()) {
                Some(p) => {
                    blocked.push(ControlMsg::CommandBlocked { command: commands[i].clone(), pattern: p.to_owned() });
                    assert(blocked@.map_values(|m: ControlMsg| blocked_view(m)) =~= before.map_values(
                        |m: ControlMsg| blocked_view(m),
                    ).push((commands@[i as int]@, p@)));
                },
                None => {},
            }
            i = i + 1;
        }
        assert(views.take(commands@.len() as int) == views);
        let forward = blocked.len() == 0;
        HostChunk { forward_to_pty: forward, pty_text: pty, commands, blocked }
    }
}

/// Commands hit by a blocking pattern never reach the shell: if any
/// command completed by a chunk is blocked, a notice names it and the
/// chunk does not go on as it came (only its text without the blocked
/// lines does); a chunk goes on whole only when none of its commands is
/// blocked.
pub proof fn blocked_commands_never_reach_the_shell(c: ShellConfig, cmds: Seq<Seq<char>>, i: int)
    requires
        0 <= i < cmds.len(),
        blocking_pattern(c, cmds[i]) is Some,
    ensures
        blocked_spec(c, cmds).len() > 0,
        exists|k: int| 0 <= k < blocked_spec(c, cmds).len() && #[trigger] blocked_spec(c, cmds)[k].0 == cmds[i],
    decreases cmds.len(),
{
    if i == cmds.len() - 1 {
        let rest = blocked_spec(c, cmds.drop_last());
        let p = blocking_pattern(c, cmds.last())->0;
        assert(blocked_spec(c, cmds) == rest.push((cmds.last(), p)));
        assert(blocked_spec(c, cmds)[rest.len() as int].0 == cmds[i]);
    } else {
        let d = cmds.drop_last();
        assert(d[i] == cmds[i]);
        blocked_commands_never_reach_the_shell(c, d, i);
        let rest = blocked_spec(c, d);
        let k = choose|k: int| 0 <= k < rest.len() && #[trigger] rest[k].0 == d[i];
        match blocking_pattern(c, cmds.last()) {
            Some(p) => {
                assert(blocked_spec(c, cmds) == rest.push((cmds.last(), p)));
                assert(blocked_spec(c, cmds)[k] == rest[k]);
            },
            None => {
                assert(blocked_spec(c, cmds) == rest);
            },
        }
        assert(blocked_spec(c, cmds)[k].0 == cmds[i]);
    }
}

proof fn lemma_no_blocked_prefix(c: ShellConfig, x: Seq<Seq<char>>, t: Seq<char>)
    requires
        blocked_spec(c, x.push(t)).len() == 0,
    ensures
        blocked_spec(c, x).len() == 0,
        blocking_pattern(c, t) is None,
{
    assert(x.push(t).drop_last() == x);
    assert(x.push(t).last() == t);
}

/// A chunk that completes no blocked command reaches the shell unchanged:
/// its text is passed on whole.
pub proof fn unblocked_text_passes_whole(c: ShellConfig, buf: Seq<char>, cs: Seq<char>)
    requires
        blocked_spec(c, feed_spec(buf, cs).1).len() == 0,
    ensures
        pty_text(c, buf, cs) == cs,
    decreases cs.len(),
{
    if cs.len() > 0 {
        let d = cs.drop_last();
        let ch = cs.last();
        let prev = feed_spec(buf, d);
        if is_line_break(ch) {
            let t = trim_seq(prev.0);
            if t.len() > 0 {
                lemma_no_blocked_prefix(c, prev.1, t);
            }
        }
        unblocked_text_passes_whole(c, buf, d);
        assert(d.push(ch) == cs);
        let f = pty_filter(c, buf, d);
        if is_line_break(ch) {
            assert(pty_text(c, buf, cs) == f.0 + f.1.push(ch));
            assert(f.0 + f.1.push(ch) =~= (f.0 + f.1).push(ch));
        } else {
            assert(pty_text(c, buf, cs) == f.0 + f.1.push(ch));
            assert(f.0 + f.1.push(ch) =~= (f.0 + f.1).push(ch));
        }
    }
}


/// How the host answered a suspicious-command alert.
#[derive(Clone, Copy, Debug, PartialEq, Eq, Structural)]
pub enum AlertAnswer {
    /// Let this instance through.
    Allow,
    /// Block this instance.
    Block,
    /// Block this instance and add the matched patterns to the blocked
    /// commands, so that later commands matching them never reach the
    /// shell.
    BlockAlways,
}

/// The answer a reply gives: `no` or `n` blocks, `block-always` blocks
/// for good (any case, white space ignored); anything else allows.
pub open spec fn alert_answer_spec(reply: Seq<char>) -> AlertAnswer {
    let a = unicode_lowercase(trim_seq(reply));
    if a == "no"@ || a == "n"@ {
        AlertAnswer::Block
    } else if a == "block-always"@ {
        AlertAnswer::BlockAlways
    } else {
        AlertAnswer::Allow
    }
}

/// Reads the host's reply to a suspicious-command alert.
pub fn alert_answer(reply: &str) -> (a: AlertAnswer)
    ensures
        a == alert_answer_spec(reply@),
{
    let t = trim(reply);
    let l = to_lowercase(t.as_str());
    if str_eq(l.as_str(), "no") || str_eq(l.as_str(), "n") {
        AlertAnswer::Block
    } else if str_eq(l.as_str(), "block-always") {
        AlertAnswer::BlockAlways
    } else {
        AlertAnswer::Allow
    }
}

/// What the monitor does with a command before any alert.
#[derive(Debug)]
pub enum MonitorCheck {
    /// It matches these suspicious patterns, in configured order: ask.
    Suspicious(Vec<String>),
    /// Nothing to ask: log it as allowed.
    Plain,
}

/// Sorts a command seen by the monitor by the suspicious patterns alone.
/// Whether the interceptor held the command back plays no part here: a
/// command that the blocklist stopped is still shown to the host, and
/// raises an alert when a suspicious pattern hits it.
pub fn monitor_check(config: &ShellConfig, cmd: &str) -> (m: MonitorCheck)
    ensures
        all_hits(texts(config.suspicious_patterns@), cmd@).len() > 0
            ==> (m matches MonitorCheck::Suspicious(ps) && ps@.map_values(|p: String| p@) == all_hits(
            texts(config.suspicious_patterns@),
            cmd@,
        )),
        all_hits(texts(config.suspicious_patterns@), cmd@).len() == 0 ==> m is Plain,
{
    let hits = config.suspicious_matches(cmd);
    if hits.len() == 0 {
        return MonitorCheck::Plain;
    }
    let mut out: Vec<String> = Vec::new();
    let mut i: usize = 0;
    while i < hits.len()
        invariant
            i <= hits@.len(),
            out@.len() == i,
            forall|k: int| 0 <= k < i ==> (#[trigger] out@[k])@ == hits@[k]@,
        decreases hits@.len() - i,
    {
        out.push(hits[i].to_owned());
        i = i + 1;
    }
    assert(out@.map_values(|p: String| p@) =~= hits@.map_values(|p: &str| p@));
    MonitorCheck::Suspicious(out)
}

/// The blocked commands after the host answered `block-always` to an alert
/// on `patterns`: the old ones, then the patterns.
pub open spec fn blocked_after(config: ShellConfig, patterns: Seq<String>) -> Seq<Seq<char>> {
    texts(config.blocked_commands@) + texts(patterns)
}

/// The host's verdict on a command seen by the monitor, given the
/// suspicious patterns it matches and, when it matches some, the host's
/// reply to the alert: a command that matches none is allowed and needs no
/// notice; otherwise the reply decides, and the client is told either that
/// it was blocked (with the patterns joined by `, `) or that it was let
/// through. `block-always` also adds the patterns to the blocked commands
/// of `config`; nothing else in `config` changes.
pub fn monitor_verdict(config: &mut ShellConfig, cmd: &str, patterns: &Vec<String>, reply: &str) -> (r: (
    CommandDisposition,
    Option<ControlMsg>,
))
    ensures
        patterns@.len() == 0 ==> r.0 == CommandDisposition::Allowed && r.1 is None,
        patterns@.len() > 0 && r.0 == CommandDisposition::SuspiciousBlocked ==> (r.1 matches Some(
            ControlMsg::CommandBlocked { command, pattern },
        ) && command@ == cmd@ && pattern@ == join_seq(patterns@.map_values(|p: String| p@), ", "@)),
        patterns@.len() > 0 && r.0 == CommandDisposition::SuspiciousAllowed ==> (r.1 matches Some(
            ControlMsg::SuspiciousAllowed { command, patterns: ps },
        ) && command@ == cmd@ && ps@.map_values(|p: String| p@) == patterns@.map_values(|p: String| p@)),
        patterns@.len() > 0 ==> r.0 == (if alert_answer_spec(reply@) == AlertAnswer::Allow {
            CommandDisposition::SuspiciousAllowed
        } else {
            CommandDisposition::SuspiciousBlocked
        }),
        patterns@.len() > 0 && alert_answer_spec(reply@) == AlertAnswer::BlockAlways
            ==> texts(final(config).blocked_commands@) == blocked_after(*old(config), patterns@),
        !(patterns@.len() > 0 && alert_answer_spec(reply@) == AlertAnswer::BlockAlways)
            ==> final(config).blocked_commands@ == old(config).blocked_commands@,
        final(config).blocked_paths@ == old(config).blocked_paths@,
        final(config).suspicious_patterns@ == old(config).suspicious_patterns@,
        final(config).persist_on_disconnect == old(config).persist_on_disconnect,
        final(config).max_session_minutes == old(config).max_session_minutes,
        final(config).shell == old(config).shell,
{
    if patterns.len() == 0 {
        return (CommandDisposition::Allowed, None);
    }
    match alert_answer(reply) {
        AlertAnswer::Allow => {
            let copy = copy_strings(patterns);
            (
                CommandDisposition::SuspiciousAllowed,
                Some(ControlMsg::SuspiciousAllowed { command: cmd.to_owned(), patterns: copy }),
            )
        },
        answer => {
            if answer == AlertAnswer::BlockAlways {
                let ghost before = config.blocked_commands@;
                let mut i: usize = 0;
                while i < patterns.len()
                    invariant
                        i <= patterns@.len(),
                        texts(config.blocked_commands@) == texts(before) + texts(patterns@.take(i as int)),
                        config.blocked_paths@ == old(config).blocked_paths@,
                        config.suspicious_patterns@ == old(config).suspicious_patterns@,
                        config.persist_on_disconnect == old(config).persist_on_disconnect,
                        config.max_session_minutes == old(config).max_session_minutes,
                        config.shell == old(config).shell,
                    decreases patterns@.len() - i,
                {
                    let ghost prev = config.blocked_commands@;
                    config.blocked_commands.push(patterns[i].clone());
                    i = i + 1;
                    proof {
                        assert(config.blocked_commands@ == prev.push(patterns@[i - 1]));
                        assert(patterns@.take(i as int) == patterns@.take(i - 1).push(patterns@[i - 1]));
                        assert(texts(config.blocked_commands@) =~= texts(prev).push(patterns@[i - 1]@));
                        assert(texts(patterns@.take(i as int)) =~= texts(patterns@.take(i - 1)).push(patterns@[i - 1]@));
                        assert(texts(config.blocked_commands@) =~= texts(before) + texts(patterns@.take(i as int)));
                    }
                }
                assert(patterns@.take(patterns@.len() as int) == patterns@);
            }
            let joined = join_strs(patterns, ", ");
            (
                CommandDisposition::SuspiciousBlocked,
                Some(ControlMsg::CommandBlocked { command: cmd.to_owned(), pattern: joined }),
            )
        },
    }
}

/// What the host blocks for good stays blocked: once `block-always` added
/// the matched patterns to the blocked commands, every later command that
/// any of those patterns hits is blocked, and so never reaches the shell.
pub proof fn always_blocked_patterns_stay_blocked(before: ShellConfig, after: ShellConfig, patterns: Seq<String>, j: int, later: Seq<char>)
    requires
        texts(after.blocked_commands@) == blocked_after(before, patterns),
        0 <= j < patterns.len(),
        hits(patterns[j]@, later),
    ensures
        blocking_pattern(after, later) is Some,
{
    let all = texts(after.blocked_commands@);
    let k = texts(before.blocked_commands@).len() + j;
    assert(all[k] == patterns[j]@);
    lemma_first_hit_found(all, later, k);
}

fn copy_strings(v: &Vec<String>) -> (out: Vec<String>)
    ensures
        out@ == v@,
{
    let mut out: Vec<String> = Vec::new();
    let mut i: usize = 0;
    while i < v.len()
        invariant
            i <= v@.len(),
            out@ == v@.take(i as int),
        decreases v@.len() - i,
    {
        out.push(v[i].clone());
        i = i + 1;
        assert(out@ =~= v@.take(i as int));
    }
    assert(v@.take(v@.len() as int) == v@);
    out
}

/// The host's answer to a shell request: approval, naming the shell, only
/// when the reply is `yes` (any case, white space ignored).
pub fn approval_message(reply: &str, shell: String) -> (m: ControlMsg)
    ensures
        is_yes_spec(reply@) ==> (m matches ControlMsg::Approved { shell: s } && s == shell),
        !is_yes_spec(reply@) ==> (m matches ControlMsg::Rejected { reason } && reason@
            == "Host declined the connection."@),
{
    if is_yes(reply) {
        ControlMsg::Approved { shell }
    } else {
        ControlMsg::Rejected { reason: "Host declined the connection.".to_owned() }
    }
}

/// What the client does with the host's first control message.
#[derive(Debug)]
pub enum ApprovalReply {
    /// The host declined, for this reason.
    Declined(String),
    /// The host approved and runs this shell.
    Approved(String),
    /// Any other message is a protocol error.
    Unexpected,
}

/// The client's reading of the host's first control message.
pub fn approval_reply(msg: &ControlMsg) -> (r: ApprovalReply)
    ensures
        match *msg {
            ControlMsg::Rejected { reason } => r matches ApprovalReply::Declined(x) && x@ == reason@,
            ControlMsg::Approved { shell } => r matches ApprovalReply::Approved(x) && x@ == shell@,
            _ => r is Unexpected,
        },
{
    match msg {
        ControlMsg::Rejected { reason } => ApprovalReply::Declined(reason.clone()),
        ControlMsg::Approved { shell } => ApprovalReply::Approved(shell.clone()),
        _ => ApprovalReply::Unexpected,
    }
}

/// What the client does with a later control message.
#[derive(Debug)]
pub enum ClientAction {
    /// The host ended the session: stop.
    Terminate,
    /// Show that `command` was blocked by `pattern`.
    ShowBlocked { command: String, pattern: String },
    /// Show that `command` was let through though it matched `patterns`
    /// (joined with `, `).
    ShowSuspicious { command: String, patterns: String },
    /// Nothing to do.
    Ignore,
}

/// The client's reaction to a control message after approval.
pub fn client_action(msg: &ControlMsg) -> (a: ClientAction)
    ensures
        match *msg {
            ControlMsg::HostKilled => a is Terminate,
            ControlMsg::CommandBlocked { command, pattern } =>
                a matches ClientAction::ShowBlocked { command: c, pattern: p } && c@ == command@ && p@ == pattern@,
            ControlMsg::SuspiciousAllowed { command, patterns } =>
                a matches ClientAction::ShowSuspicious { command: c, patterns: p } && c@ == command@
                    && p@ == join_seq(patterns@.map_values(|x: String| x@), ", "@),
            _ => a is Ignore,
        },
{
    match msg {
        ControlMsg::HostKilled => ClientAction::Terminate,
        ControlMsg::CommandBlocked { command, pattern } => ClientAction::ShowBlocked {
            command: command.clone(),
            pattern: pattern.clone(),
        },
        ControlMsg::SuspiciousAllowed { command, patterns } => ClientAction::ShowSuspicious {
            command: command.clone(),
            patterns: join_strs(patterns, ", "),
        },
        _ => ClientAction::Ignore,
    }
}

/// How a suspicious command is logged after the host's reply: `no`, `n`
/// and `block-always` block it; anything else allows it.
pub fn suspicious_disposition(reply: &str) -> (d: CommandDisposition)
    ensures
        d == if alert_answer_spec(reply@) == AlertAnswer::Allow {
            CommandDisposition::SuspiciousAllowed
        } else {
            CommandDisposition::SuspiciousBlocked
        },
{
    match alert_answer(reply) {
        AlertAnswer::Allow => CommandDisposition::SuspiciousAllowed,
        _ => CommandDisposition::SuspiciousBlocked,
    }
}

/// The host's answer to "keep the shell alive if the client disconnects":
/// `yes`/`y` and `no`/`n` (any case, white space ignored), else `default`.
pub fn persist_choice(reply: &str, default: bool) -> (b: bool)
    ensures
        ({
            let a = unicode_lowercase(trim_seq(reply@));
            b == if a == "yes"@ || a == "y"@ {
                true
            } else if a == "no"@ || a == "n"@ {
                false
            } else {
                default
            }
        }),
{
    let t = trim(reply);
    let l = to_lowercase(t.as_str());
    if str_eq(l.as_str(), "yes") || str_eq(l.as_str(), "y") {
        true
    } else if str_eq(l.as_str(), "no") || str_eq(l.as_str(), "n") {
        false
    } else {
        default
    }
}

} // verus!

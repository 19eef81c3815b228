//! Host-side rules for remote shell sessions: commands that are always
//! blocked, patterns that raise an alert, and the session audit record.

use vstd::prelude::*;
use crate::text::{chars_of, contains_chars, contains_seq, push_all, to_lowercase, unicode_lowercase};
use crate::time::Timestamp;

verus! {

/// Shell session configuration of the host (`~/.punch/shell_config.json`).
#[derive(Debug)]
pub struct ShellConfig {
    /// Commands that are always blocked.
    pub blocked_commands: Vec<String>,
    /// Paths whose mention blocks a command.
    pub blocked_paths: Vec<String>,
    /// Patterns that raise an alert on the host.
    pub suspicious_patterns: Vec<String>,
    /// Keep the shell alive when the client disconnects.
    pub persist_on_disconnect: bool,
    /// Longest session in minutes (0 = unlimited).
    pub max_session_minutes: u64,
    /// Shell to run (the system shell when absent).
    pub shell: Option<String>,
}

impl Clone for ShellConfig {
    fn clone(&self) -> (r: Self)
        ensures
            r.blocked_commands@ == self.blocked_commands@,
            r.blocked_paths@ == self.blocked_paths@,
            r.suspicious_patterns@ == self.suspicious_patterns@,
            r.persist_on_disconnect == self.persist_on_disconnect,
            r.max_session_minutes == self.max_session_minutes,
            r.shell == self.shell,
    {
        ShellConfig {
            blocked_commands: clone_strings(&self.blocked_commands),
            blocked_paths: clone_strings(&self.blocked_paths),
            suspicious_patterns: clone_strings(&self.suspicious_patterns),
            persist_on_disconnect: self.persist_on_disconnect,
            max_session_minutes: self.max_session_minutes,
            shell: match &self.shell {
                Some(s) => Some(s.clone()),
                None => None,
            },
        }
    }
}

fn clone_strings(v: &Vec<String>) -> (r: Vec<String>)
    ensures
        r@ == v@,
{
    let mut r: Vec<String> = Vec::new();
    let mut i: usize = 0;
    while i < v.len()
        invariant
            i <= v@.len(),
            r@ == v@.take(i as int),
        decreases v@.len() - i,
    {
        r.push(v[i].clone());
        i = i + 1;
        assert(r@ =~= v@.take(i as int));
    }
    assert(v@.take(v@.len() as int) == v@);
    r
}

/// A `String` holding `s`.
pub fn owned(s: &str) -> (r: String)
    ensures
        r@ == s@,
{
    let mut r = String::new();
    push_all(&mut r, s);
    assert(Seq::<char>::empty() + s@ =~= s@);
    r
}

/// The texts of a list of strings.
pub open spec fn texts(v: Seq<String>) -> Seq<Seq<char>> {
    v.map_values(|s: String| s@)
}

pub open spec fn default_blocked_commands() -> Seq<Seq<char>> {
    seq![
        "rm -rf /"@, "rm -rf /*"@, "mkfs"@, "dd if=/dev/zero"@, "dd if=/dev/random"@,
        ":(){:|:&};:"@, "chmod -R 777 /"@, "chown -R"@, "> /dev/sda"@, "format c:"@,
    ]
}

pub open spec fn default_blocked_paths() -> Seq<Seq<char>> {
    seq!["/etc/shadow"@, "/etc/sudoers"@, "/boot"@, "/proc/sysrq-trigger"@]
}

pub open spec fn default_suspicious_patterns() -> Seq<Seq<char>> {
    seq![
        "/etc/passwd"@, "~/.ssh"@, ".ssh/id_rsa"@, ".ssh/authorized_keys"@, "sudo"@, "su "@,
        "chmod 777"@, "curl | bash"@, "wget | bash"@, "curl | sh"@, "wget | sh"@, "base64 -d"@,
        "eval"@, "history -c"@, "/etc/crontab"@, "nc -l"@, "ncat -l"@, "bash -i"@,
    ]
}

fn push_owned(v: &mut Vec<String>, s: &str)
    ensures
        texts(final(v)@) == texts(old(v)@).push(s@),
{
    v.push(owned(s));
    assert(texts(v@) =~= texts(old(v)@).push(s@));
}

impl Default for ShellConfig {
    /// The protective defaults every host starts with.
    fn default() -> (c: ShellConfig)
        ensures
            texts(c.blocked_commands@) == default_blocked_commands(),
            texts(c.blocked_paths@) == default_blocked_paths(),
            texts(c.suspicious_patterns@) == default_suspicious_patterns(),
            !c.persist_on_disconnect,
            c.max_session_minutes == 0,
            c.shell is None,
    {
        let mut b: Vec<String> = Vec::new();
        push_owned(&mut b, "rm -rf /");
        push_owned(&mut b, "rm -rf /*");
        push_owned(&mut b, "mkfs");
        push_owned(&mut b, "dd if=/dev/zero");
        push_owned(&mut b, "dd if=/dev/random");
        push_owned(&mut b, ":(){:|:&};:");
        push_owned(&mut b, "chmod -R 777 /");
        push_owned(&mut b, "chown -R");
        push_owned(&mut b, "> /dev/sda");
        push_owned(&mut b, "format c:");
        let mut p: Vec<String> = Vec::new();
        push_owned(&mut p, "/etc/shadow");
        push_owned(&mut p, "/etc/sudoers");
        push_owned(&mut p, "/boot");
        push_owned(&mut p, "/proc/sysrq-trigger");
        let mut s: Vec<String> = Vec::new();
        push_owned(&mut s, "/etc/passwd");
        push_owned(&mut s, "~/.ssh");
        push_owned(&mut s, ".ssh/id_rsa");
        push_owned(&mut s, ".ssh/authorized_keys");
        push_owned(&mut s, "sudo");
        push_owned(&mut s, "su ");
        push_owned(&mut s, "chmod 777");
        push_owned(&mut s, "curl | bash");
        push_owned(&mut s, "wget | bash");
        push_owned(&mut s, "curl | sh");
        push_owned(&mut s, "wget | sh");
        push_owned(&mut s, "base64 -d");
        push_owned(&mut s, "eval");
        push_owned(&mut s, "history -c");
        push_owned(&mut s, "/etc/crontab");
        push_owned(&mut s, "nc -l");
        push_owned(&mut s, "ncat -l");
        push_owned(&mut s, "bash -i");
        assert(texts(b@) =~= default_blocked_commands());
        assert(texts(p@) =~= default_blocked_paths());
        assert(texts(s@) =~= default_suspicious_patterns());
        ShellConfig {
            blocked_commands: b,
            blocked_paths: p,
            suspicious_patterns: s,
            persist_on_disconnect: false,
            max_session_minutes: 0,
            shell: None,
        }
    }
}

/// A pattern hits a command when its lower-case form occurs in the
/// lower-case command.
pub open spec fn hits(pattern: Seq<char>, cmd: Seq<char>) -> bool {
    contains_seq(unicode_lowercase(cmd), unicode_lowercase(pattern))
}

/// Index of the first pattern that hits `cmd`, or -1.
pub open spec fn first_hit(patterns: Seq<Seq<char>>, cmd: Seq<char>) -> int
    decreases patterns.len(),
{
    if patterns.len() == 0 {
        -1
    } else {
        let p = first_hit(patterns.drop_last(), cmd);
        if p >= 0 {
            p
        } else if hits(patterns.last(), cmd) {
            patterns.len() - 1
        } else {
            -1
        }
    }
}

/// The patterns that hit `cmd`, in order.
pub open spec fn all_hits(patterns: Seq<Seq<char>>, cmd: Seq<char>) -> Seq<Seq<char>>
    decreases patterns.len(),
{
    if patterns.len() == 0 {
        seq![]
    } else if hits(patterns.last(), cmd) {
        all_hits(patterns.drop_last(), cmd).push(patterns.last())
    } else {
        all_hits(patterns.drop_last(), cmd)
    }
}

/// The pattern that blocks `cmd`: the first blocked command that hits it,
/// else the first blocked path that hits it.
pub open spec fn blocking_pattern(c: ShellConfig, cmd: Seq<char>) -> Option<Seq<char>> {
    let i = first_hit(texts(c.blocked_commands@), cmd);
    if i >= 0 {
        Some(texts(c.blocked_commands@)[i])
    } else {
        let j = first_hit(texts(c.blocked_paths@), cmd);
        if j >= 0 {
            Some(texts(c.blocked_paths@)[j])
        } else {
            None
        }
    }
}

proof fn lemma_first_hit_prefix(ps: Seq<Seq<char>>, cmd: Seq<char>, i: int)
    requires
        0 <= i < ps.len(),
        first_hit(ps.take(i), cmd) == -1,
    ensures
        first_hit(ps.take(i + 1), cmd) == (if hits(ps[i], cmd) { i } else { -1 }),
{
    assert(ps.take(i + 1).drop_last() == ps.take(i));
}

proof fn lemma_first_hit_extend(ps: Seq<Seq<char>>, cmd: Seq<char>, k: int)
    requires
        0 <= k <= ps.len(),
        first_hit(ps.take(k), cmd) >= 0,
    ensures
        first_hit(ps, cmd) == first_hit(ps.take(k), cmd),
    decreases ps.len() - k,
{
    if k < ps.len() {
        assert(ps.take(k + 1).drop_last() == ps.take(k));
        lemma_first_hit_extend(ps, cmd, k + 1);
    } else {
        assert(ps.take(k) == ps);
    }
}

pub(crate) proof fn lemma_first_hit_found(ps: Seq<Seq<char>>, cmd: Seq<char>, j: int)
    requires
        0 <= j < ps.len(),
        hits(ps[j], cmd),
    ensures
        first_hit(ps, cmd) >= 0,
        first_hit(ps, cmd) < ps.len(),
    decreases ps.len(),
{
    lemma_first_hit_range(ps.drop_last(), cmd);
    if j < ps.len() - 1 {
        assert(ps.drop_last()[j] == ps[j]);
        lemma_first_hit_found(ps.drop_last(), cmd, j);
    }
}

proof fn lemma_first_hit_range(ps: Seq<Seq<char>>, cmd: Seq<char>)
    ensures
        -1 <= first_hit(ps, cmd) < ps.len(),
    decreases ps.len(),
{
    if ps.len() > 0 {
        lemma_first_hit_range(ps.drop_last(), cmd);
    }
}

/// Every pattern of `ps` that hits `cmd` is among the hits, so the first
/// hit exists and comes no later.
pub(crate) proof fn lemma_hit_listed(ps: Seq<Seq<char>>, cmd: Seq<char>, j: int)
    requires
        0 <= j < ps.len(),
        hits(ps[j], cmd),
    ensures
        all_hits(ps, cmd).contains(ps[j]),
    decreases ps.len(),
{
    if j < ps.len() - 1 {
        assert(ps.drop_last()[j] == ps[j]);
        lemma_hit_listed(ps.drop_last(), cmd, j);
        let h = all_hits(ps.drop_last(), cmd);
        let k = choose|k: int| 0 <= k < h.len() && h[k] == ps[j];
        if hits(ps.last(), cmd) {
            assert(all_hits(ps, cmd)[k] == ps[j]);
        }
    } else {
        assert(all_hits(ps, cmd).last() == ps[j]);
    }
}

/// The default configuration holds back every command hit by one of its
/// dangerous patterns (`rm -rf /`, `rm -rf /*`, `mkfs`, `dd if=/dev/zero`,
/// `dd if=/dev/random`, the fork bomb `:(){:|:&};:`, `chmod -R 777 /`,
/// `chown -R`, `> /dev/sda`, `format c:`) or protected paths
/// (`/etc/shadow`, `/etc/sudoers`, `/boot`, `/proc/sysrq-trigger`), ignoring
/// case: some blocking pattern that hits it is found.
pub proof fn default_config_blocks_dangerous_commands(c: ShellConfig, p: Seq<char>, cmd: Seq<char>)
    requires
        texts(c.blocked_commands@) == default_blocked_commands(),
        texts(c.blocked_paths@) == default_blocked_paths(),
        p == "rm -rf /"@ || p == "rm -rf /*"@ || p == "mkfs"@ || p == "dd if=/dev/zero"@
            || p == "dd if=/dev/random"@ || p == ":(){:|:&};:"@ || p == "chmod -R 777 /"@
            || p == "chown -R"@ || p == "> /dev/sda"@ || p == "format c:"@ || p == "/etc/shadow"@
            || p == "/etc/sudoers"@ || p == "/boot"@ || p == "/proc/sysrq-trigger"@,
        hits(p, cmd),
    ensures
        blocking_pattern(c, cmd) matches Some(q) && hits(q, cmd),
{
    let b = texts(c.blocked_commands@);
    let d = texts(c.blocked_paths@);
    if p == "rm -rf /"@ {
        lemma_first_hit_found(b, cmd, 0);
    } else if p == "rm -rf /*"@ {
        lemma_first_hit_found(b, cmd, 1);
    } else if p == "mkfs"@ {
        lemma_first_hit_found(b, cmd, 2);
    } else if p == "dd if=/dev/zero"@ {
        lemma_first_hit_found(b, cmd, 3);
    } else if p == "dd if=/dev/random"@ {
        lemma_first_hit_found(b, cmd, 4);
    } else if p == ":(){:|:&};:"@ {
        lemma_first_hit_found(b, cmd, 5);
    } else if p == "chmod -R 777 /"@ {
        lemma_first_hit_found(b, cmd, 6);
    } else if p == "chown -R"@ {
        lemma_first_hit_found(b, cmd, 7);
    } else if p == "> /dev/sda"@ {
        lemma_first_hit_found(b, cmd, 8);
    } else if p == "format c:"@ {
        lemma_first_hit_found(b, cmd, 9);
    }
    if p == "/etc/shadow"@ {
        lemma_first_hit_found(d, cmd, 0);
    } else if p == "/etc/sudoers"@ {
        lemma_first_hit_found(d, cmd, 1);
    } else if p == "/boot"@ {
        lemma_first_hit_found(d, cmd, 2);
    } else if p == "/proc/sysrq-trigger"@ {
        lemma_first_hit_found(d, cmd, 3);
    }
    lemma_first_hit_range(b, cmd);
    lemma_first_hit_range(d, cmd);
    if first_hit(b, cmd) >= 0 {
        lemma_first_hit_hits(b, cmd);
    } else {
        lemma_first_hit_hits(d, cmd);
    }
}

/// The default configuration alerts the host on every command hit by one of
/// its suspicious patterns (`/etc/passwd`, `~/.ssh`, `.ssh/id_rsa`,
/// `.ssh/authorized_keys`, `sudo`, `su `, `chmod 777`, `curl | bash`,
/// `wget | bash`, `curl | sh`, `wget | sh`, `base64 -d`, `eval`,
/// `history -c`, `/etc/crontab`, `nc -l`, `ncat -l`, `bash -i`), ignoring
/// case: the pattern is among the matches the host is shown.
pub proof fn default_config_flags_suspicious_commands(c: ShellConfig, p: Seq<char>, cmd: Seq<char>)
    requires
        texts(c.suspicious_patterns@) == default_suspicious_patterns(),
        p == "/etc/passwd"@ || p == "~/.ssh"@ || p == ".ssh/id_rsa"@ || p == ".ssh/authorized_keys"@
            || p == "sudo"@ || p == "su "@ || p == "chmod 777"@ || p == "curl | bash"@
            || p == "wget | bash"@ || p == "curl | sh"@ || p == "wget | sh"@ || p == "base64 -d"@
            || p == "eval"@ || p == "history -c"@ || p == "/etc/crontab"@ || p == "nc -l"@
            || p == "ncat -l"@ || p == "bash -i"@,
        hits(p, cmd),
    ensures
        all_hits(texts(c.suspicious_patterns@), cmd).contains(p),
{
    let s = texts(c.suspicious_patterns@);
    if p == "/etc/passwd"@ {
        lemma_hit_listed(s, cmd, 0);
    } else if p == "~/.ssh"@ {
        lemma_hit_listed(s, cmd, 1);
    } else if p == ".ssh/id_rsa"@ {
        lemma_hit_listed(s, cmd, 2);
    } else if p == ".ssh/authorized_keys"@ {
        lemma_hit_listed(s, cmd, 3);
    } else if p == "sudo"@ {
        lemma_hit_listed(s, cmd, 4);
    } else if p == "su "@ {
        lemma_hit_listed(s, cmd, 5);
    } else if p == "chmod 777"@ {
        lemma_hit_listed(s, cmd, 6);
    } else if p == "curl | bash"@ {
        lemma_hit_listed(s, cmd, 7);
    } else if p == "wget | bash"@ {
        lemma_hit_listed(s, cmd, 8);
    } else if p == "curl | sh"@ {
        lemma_hit_listed(s, cmd, 9);
    } else if p == "wget | sh"@ {
        lemma_hit_listed(s, cmd, 10);
    } else if p == "base64 -d"@ {
        lemma_hit_listed(s, cmd, 11);
    } else if p == "eval"@ {
        lemma_hit_listed(s, cmd, 12);
    } else if p == "history -c"@ {
        lemma_hit_listed(s, cmd, 13);
    } else if p == "/etc/crontab"@ {
        lemma_hit_listed(s, cmd, 14);
    } else if p == "nc -l"@ {
        lemma_hit_listed(s, cmd, 15);
    } else if p == "ncat -l"@ {
        lemma_hit_listed(s, cmd, 16);
    } else if p == "bash -i"@ {
        lemma_hit_listed(s, cmd, 17);
    }
}

/// The first hit, when there is one, does hit.
pub(crate) proof fn lemma_first_hit_hits(ps: Seq<Seq<char>>, cmd: Seq<char>)
    requires
        first_hit(ps, cmd) >= 0,
    ensures
        first_hit(ps, cmd) < ps.len(),
        hits(ps[first_hit(ps, cmd)], cmd),
    decreases ps.len(),
{
    lemma_first_hit_range(ps, cmd);
    if first_hit(ps.drop_last(), cmd) >= 0 {
        lemma_first_hit_hits(ps.drop_last(), cmd);
        assert(ps.drop_last()[first_hit(ps, cmd)] == ps[first_hit(ps, cmd)]);
    }
}

/// Index of the first pattern of `ps` that hits the lower-case command.
fn find_first_hit(ps: &Vec<String>, lower_cmd: &Vec<char>, Ghost(cmd): Ghost<Seq<char>>) -> (r: Option<usize>)
    requires
        lower_cmd@ == unicode_lowercase(cmd),
    ensures
        match r {
            Some(i) => i < ps@.len() && i as int == first_hit(texts(ps@), cmd),
            None => first_hit(texts(ps@), cmd) == -1,
        },
{
    let mut i: usize = 0;
    let ghost t = texts(ps@);
    while i < ps.len()
        invariant
            i <= ps@.len(),
            t == texts(ps@),
            lower_cmd@ == unicode_lowercase(cmd),
            first_hit(t.take(i as int), cmd) == -1,
        decreases ps@.len() - i,
    {
        let lp = to_lowercase(ps[i].as_str());
        let lpc = chars_of(lp.as_str());
        let hit = contains_chars(lower_cmd, &lpc);
        proof {
            assert(t[i as int] == ps@[i as int]@);
            lemma_first_hit_prefix(t, cmd, i as int);
        }
        if hit {
            proof {
                lemma_first_hit_extend(t, cmd, i + 1);
            }
            return Some(i);
        }
        i = i + 1;
    }
    assert(t.take(ps@.len() as int) == t);
    None
}

impl ShellConfig {
    /// The pattern that blocks `cmd`, if any: blocked commands are checked
    /// first, then blocked paths; matching ignores case.
    pub fn is_blocked(&self, cmd: &str) -> (r: Option<&str>)
        ensures
            match r {
                Some(p) => blocking_pattern(*self, cmd@) == Some(p@),
                None => blocking_pattern(*self, cmd@) is None,
            },
    {
        let lower = to_lowercase(cmd);
        let lc = chars_of(lower.as_str());
        match find_first_hit(&self.blocked_commands, &lc, Ghost(cmd@)) {
            Some(i) => {
                assert(texts(self.blocked_commands@)[i as int] == self.blocked_commands@[i as int]@);
                return Some(self.blocked_commands[i].as_str());
            },
            None => {},
        }
        match find_first_hit(&self.blocked_paths, &lc, Ghost(cmd@)) {
            Some(j) => {
                assert(texts(self.blocked_paths@)[j as int] == self.blocked_paths@[j as int]@);
                Some(self.blocked_paths[j].as_str())
            },
            None => None,
        }
    }

    /// Every suspicious pattern that occurs in `cmd` (ignoring case), in
    /// the configured order.
    pub fn suspicious_matches(&self, cmd: &str) -> (r: Vec<&str>)
        ensures
            r@.map_values(|s: &str| s@) == all_hits(texts(self.suspicious_patterns@), cmd@),
    {
        let lower = to_lowercase(cmd);
        let lc = chars_of(lower.as_str());
        let ghost t = texts(self.suspicious_patterns@);
        let mut r: Vec<&str> = Vec::new();
        let mut i: usize = 0;
        while i < self.suspicious_patterns.len()
            invariant
                i <= self.suspicious_patterns@.len(),
                t == texts(self.suspicious_patterns@),
                lc@ == unicode_lowercase(cmd@),
                r@.map_values(|s: &str| s@) == all_hits(t.take(i as int), cmd@),
            decreases self.suspicious_patterns@.len() - i,
        {
            let p: &str = self.suspicious_patterns[i].as_str();
            let lp = to_lowercase(p);
            let lpc = chars_of(lp.as_str());
            let hit = contains_chars(&lc, &lpc);
            let ghost before = r@;
            if hit {
                r.push(p);
            }
            proof {
                assert(t.take(i + 1).drop_last() == t.take(i as int));
                assert(t[i as int] == p@);
                assert(t.take(i + 1).last() == p@);
                if hit {
                    assert(r@.map_values(|s: &str| s@) =~= before.map_values(|s: &str| s@).push(p@));
                }
            }
            i = i + 1;
        }
        assert(t.take(self.suspicious_patterns@.len() as int) == t);
        r
    }

    /// The shell to run: the configured one, else `cmd.exe` on Windows,
    /// else `$SHELL` (given as `env_shell`), else `/bin/bash`.
    pub fn shell_binary(&self, on_windows: bool, env_shell: Option<String>) -> (s: String)
        ensures
            s@ == match self.shell {
                Some(x) => x@,
                None => if on_windows {
                    "cmd.exe"@
                } else {
                    match env_shell {
                        Some(e) => e@,
                        None => "/bin/bash"@,
                    }
                },
            },
    {
        match &self.shell {
            Some(x) => x.clone(),
            None => {
                if on_windows {
                    owned("cmd.exe")
                } else {
                    match env_shell {
                        Some(e) => e,
                        None => owned("/bin/bash"),
                    }
                }
            },
        }
    }
}

/// How a typed command was handled.
#[derive(Clone, Copy, Debug, PartialEq, Eq, Structural)]
pub enum CommandDisposition {
    Allowed,
    Blocked,
    SuspiciousAllowed,
    SuspiciousBlocked,
}

/// How a shell session ended.
#[derive(Clone, Copy, Debug, PartialEq, Eq, Structural)]
pub enum TerminatedBy {
    HostKilled,
    PeerDisconnected,
    SessionTimeout,
    PeerClosed,
}

/// One command in the audit record.
#[derive(Debug)]
pub struct CommandEntry {
    pub timestamp: Timestamp,
    pub command: String,
    pub disposition: CommandDisposition,
}

/// The audit record of one shell session
/// (`~/.punch/logs/shell_sessions.json`).
#[derive(Debug)]
pub struct ShellSessionLog {
    pub session_id: String,
    pub started_at: Timestamp,
    pub ended_at: Option<Timestamp>,
    pub peer_node_id: String,
    pub token_type: String,
    pub commands: Vec<CommandEntry>,
    pub terminated_by: TerminatedBy,
}

} // verus!

//! File-transfer safety: risk classification by extension, the short
//! fingerprint both sides compare, and the record of each decision.

use vstd::prelude::*;
use crate::text::{
    all_ascii, chars_of, push_all, str_eq, string_from_chars, to_lowercase, trim, trim_seq,
    unicode_lowercase,
};
use crate::base64::utf8_width;
use crate::time::Timestamp;

verus! {

/// Risk of a file type.
#[derive(Clone, Copy, Debug, PartialEq, Eq, Structural)]
pub enum RiskLevel {
    /// Executables and scripts.
    High,
    /// Archives, which may hold executables.
    Medium,
    /// Documents and media.
    Low,
}

pub open spec fn risk_label(r: RiskLevel) -> Seq<char> {
    match r {
        RiskLevel::High => "HIGH RISK"@,
        RiskLevel::Medium => "MEDIUM RISK"@,
        RiskLevel::Low => "LOW RISK"@,
    }
}

impl RiskLevel {
    pub fn icon(&self) -> (s: &'static str)
        ensures
            s@ == match *self {
                RiskLevel::High => "🔴"@,
                RiskLevel::Medium => "🟡"@,
                RiskLevel::Low => "🟢"@,
            },
    {
        match self {
            RiskLevel::High => "🔴",
            RiskLevel::Medium => "🟡",
            RiskLevel::Low => "🟢",
        }
    }

    pub fn label(&self) -> (s: &'static str)
        ensures
            s@ == risk_label(*self),
    {
        match self {
            RiskLevel::High => "HIGH RISK",
            RiskLevel::Medium => "MEDIUM RISK",
            RiskLevel::Low => "LOW RISK",
        }
    }

    pub fn description(&self) -> (s: &'static str)
        ensures
            s@ == match *self {
                RiskLevel::High => "Executable — can run code on your system"@,
                RiskLevel::Medium => "Archive — may contain executable files inside"@,
                RiskLevel::Low => "Document or media — generally safe"@,
            },
    {
        match self {
            RiskLevel::High => "Executable — can run code on your system",
            RiskLevel::Medium => "Archive — may contain executable files inside",
            RiskLevel::Low => "Document or media — generally safe",
        }
    }
}

/// Extensions (lower case) of executables and scripts.
pub open spec fn is_high_risk_ext(e: Seq<char>) -> bool {
    e == "exe"@ || e == "bat"@ || e == "cmd"@ || e == "com"@ || e == "msi"@ || e == "dll"@
        || e == "so"@ || e == "dylib"@ || e == "sh"@ || e == "bash"@ || e == "zsh"@ || e == "fish"@
        || e == "ps1"@ || e == "psm1"@ || e == "psd1"@ || e == "app"@ || e == "dmg"@ || e == "pkg"@
        || e == "deb"@ || e == "rpm"@ || e == "vbs"@ || e == "vbe"@ || e == "js"@ || e == "jse"@
        || e == "wsf"@ || e == "wsh"@ || e == "scr"@ || e == "pif"@ || e == "reg"@ || e == "inf"@
}

/// Extensions (lower case) of archives.
pub open spec fn is_medium_risk_ext(e: Seq<char>) -> bool {
    e == "zip"@ || e == "tar"@ || e == "gz"@ || e == "tgz"@ || e == "bz2"@ || e == "xz"@
        || e == "7z"@ || e == "rar"@ || e == "jar"@ || e == "war"@ || e == "ear"@ || e == "apk"@
        || e == "ipa"@
}

fn high_risk_ext(e: &str) -> (b: bool)
    ensures
        b == is_high_risk_ext(e@),
{
    str_eq(e, "exe") || str_eq(e, "bat") || str_eq(e, "cmd") || str_eq(e, "com") || str_eq(e, "msi")
        || str_eq(e, "dll") || str_eq(e, "so") || str_eq(e, "dylib") || str_eq(e, "sh")
        || str_eq(e, "bash") || str_eq(e, "zsh") || str_eq(e, "fish") || str_eq(e, "ps1")
        || str_eq(e, "psm1") || str_eq(e, "psd1") || str_eq(e, "app") || str_eq(e, "dmg")
        || str_eq(e, "pkg") || str_eq(e, "deb") || str_eq(e, "rpm") || str_eq(e, "vbs")
        || str_eq(e, "vbe") || str_eq(e, "js") || str_eq(e, "jse") || str_eq(e, "wsf")
        || str_eq(e, "wsh") || str_eq(e, "scr") || str_eq(e, "pif") || str_eq(e, "reg")
        || str_eq(e, "inf")
}

fn medium_risk_ext(e: &str) -> (b: bool)
    ensures
        b == is_medium_risk_ext(e@),
{
    str_eq(e, "zip") || str_eq(e, "tar") || str_eq(e, "gz") || str_eq(e, "tgz") || str_eq(e, "bz2")
        || str_eq(e, "xz") || str_eq(e, "7z") || str_eq(e, "rar") || str_eq(e, "jar")
        || str_eq(e, "war") || str_eq(e, "ear") || str_eq(e, "apk") || str_eq(e, "ipa")
}

/// Risk of a lower-cased extension.
pub open spec fn risk_of_ext(e: Seq<char>) -> RiskLevel {
    if is_high_risk_ext(e) {
        RiskLevel::High
    } else if is_medium_risk_ext(e) {
        RiskLevel::Medium
    } else {
        RiskLevel::Low
    }
}

/// The last component of a `/`-separated path that names something: empty
/// segments and `.` segments are skipped (as `Path::components` does).
pub open spec fn last_name_segment(s: Seq<char>) -> Option<Seq<char>>
    decreases s.len(),
{
    if s.len() == 0 {
        None
    } else {
        proof {
            lemma_last_slash(s);
        }
        let slash = last_slash(s);
        let seg = s.subrange(slash + 1, s.len() as int);
        if seg.len() == 0 || seg == "."@ {
            if slash < 0 {
                None
            } else {
                last_name_segment(s.subrange(0, slash))
            }
        } else {
            Some(seg)
        }
    }
}

/// Index of the last `/`, or -1.
pub open spec fn last_slash(s: Seq<char>) -> int
    decreases s.len(),
{
    if s.len() == 0 {
        -1
    } else if s.last() == '/' {
        s.len() - 1
    } else {
        last_slash(s.drop_last())
    }
}

/// Index of the last `.`, or -1.
pub open spec fn last_dot(s: Seq<char>) -> int
    decreases s.len(),
{
    if s.len() == 0 {
        -1
    } else if s.last() == '.' {
        s.len() - 1
    } else {
        last_dot(s.drop_last())
    }
}

/// `Path::new(s).extension()` on a Unix path: the text after the last dot
/// of the file name, unless the name is `..`, has no dot, or its only
/// leading part before the dot is empty.
pub open spec fn path_extension(s: Seq<char>) -> Option<Seq<char>> {
    match last_name_segment(s) {
        None => None,
        Some(name) => if name == ".."@ {
            None
        } else {
            let d = last_dot(name);
            if d <= 0 {
                None
            } else {
                Some(name.subrange(d + 1, name.len() as int))
            }
        },
    }
}

pub proof fn lemma_last_slash(s: Seq<char>)
    ensures
        -1 <= last_slash(s) < s.len(),
        last_slash(s) >= 0 ==> s[last_slash(s)] == '/',
        forall|k: int| last_slash(s) < k < s.len() ==> s[k] != '/',
    decreases s.len(),
{
    if s.len() > 0 {
        lemma_last_slash(s.drop_last());
        assert forall|k: int| last_slash(s) < k < s.len() implies s[k] != '/' by {
            if k < s.len() - 1 {
                assert(s.drop_last()[k] == s[k]);
            }
        }
    }
}

proof fn lemma_last_dot(s: Seq<char>)
    ensures
        -1 <= last_dot(s) < s.len(),
        last_dot(s) >= 0 ==> s[last_dot(s)] == '.',
        forall|k: int| last_dot(s) < k < s.len() ==> s[k] != '.',
    decreases s.len(),
{
    if s.len() > 0 {
        lemma_last_dot(s.drop_last());
        assert forall|k: int| last_dot(s) < k < s.len() implies s[k] != '.' by {
            if k < s.len() - 1 {
                assert(s.drop_last()[k] == s[k]);
            }
        }
    }
}

proof fn lemma_last_slash_unique(s: Seq<char>, p: int)
    requires
        -1 <= p < s.len(),
        p >= 0 ==> s[p] == '/',
        forall|k: int| p < k < s.len() ==> s[k] != '/',
    ensures
        last_slash(s) == p,
    decreases s.len(),
{
    if s.len() > 0 && p < s.len() - 1 {
        lemma_last_slash_unique(s.drop_last(), p);
    }
}

proof fn lemma_last_dot_unique(s: Seq<char>, p: int)
    requires
        -1 <= p < s.len(),
        p >= 0 ==> s[p] == '.',
        forall|k: int| p < k < s.len() ==> s[k] != '.',
    ensures
        last_dot(s) == p,
    decreases s.len(),
{
    if s.len() > 0 && p < s.len() - 1 {
        lemma_last_dot_unique(s.drop_last(), p);
    }
}

/// Position of the last `c` in `cs[..end]`, or `end` as "none".
fn find_last(cs: &Vec<char>, end: usize, c: char) -> (p: usize)
    requires
        end <= cs@.len(),
    ensures
        p <= end,
        p < end ==> cs@[p as int] == c,
        forall|k: int| (if p < end { p as int } else { -1 }) < k < end ==> cs@[k] != c,
{
    let mut i: usize = end;
    while i > 0
        invariant
            i <= end <= cs@.len(),
            forall|k: int| i <= k < end ==> cs@[k] != c,
        decreases i,
    {
        if cs[i - 1] == c {
            return i - 1;
        }
        i = i - 1;
    }
    end
}

/// Start and end of the file-name component of `cs[..end]`, if any.
fn name_segment(cs: &Vec<char>, end: usize) -> (r: Option<(usize, usize)>)
    requires
        end <= cs@.len(),
    ensures
        match r {
            None => last_name_segment(cs@.take(end as int)) is None,
            Some((a, b)) => a <= b <= end && last_name_segment(cs@.take(end as int))
                == Some(cs@.subrange(a as int, b as int)),
        },
    decreases end,
{
    if end == 0 {
        return None;
    }
    let t = Ghost(cs@.take(end as int));
    let p = find_last(cs, end, '/');
    let start: usize = if p < end { p + 1 } else { 0 };
    proof {
        lemma_last_slash_unique(t@, if p < end { p as int } else { -1 });
        assert(t@.subrange(start as int, end as int) == cs@.subrange(start as int, end as int));
    }
    let len: usize = end - start;
    let is_dot: bool = len == 1 && cs[start] == '.';
    proof {
        reveal_strlit(".");
        if len == 1 {
            assert(is_dot == (cs@.subrange(start as int, end as int) == "."@)) by {
                let seg = cs@.subrange(start as int, end as int);
                assert(seg[0] == cs@[start as int]);
                if seg == "."@ {
                    assert(seg[0] == '.');
                }
                if is_dot {
                    assert(seg =~= "."@);
                }
            }
        } else {
            assert(cs@.subrange(start as int, end as int).len() != "."@.len());
        }
    }
    if len == 0 || is_dot {
        if p < end {
            proof {
                assert(t@.subrange(0, p as int) == cs@.take(p as int));
            }
            name_segment(cs, p)
        } else {
            None
        }
    } else {
        Some((start, end))
    }
}

/// The extension of a file name or path, as `Path::extension` finds it.
pub fn extension_of(path: &str) -> (e: Option<String>)
    ensures
        match e {
            None => path_extension(path@) is None,
            Some(x) => path_extension(path@) == Some(x@),
        },
{
    let cs = chars_of(path);
    assert(cs@.take(cs@.len() as int) == cs@);
    match name_segment(&cs, cs.len()) {
        None => None,
        Some((a, b)) => {
            let ghost name = cs@.subrange(a as int, b as int);
            let is_parent: bool = b - a == 2 && cs[a] == '.' && cs[a + 1] == '.';
            proof {
                reveal_strlit("..");
                if b - a == 2 {
                    assert(is_parent == (name == ".."@)) by {
                        if name == ".."@ {
                            assert(name[0] == cs@[a as int]);
                            assert(name[1] == cs@[a + 1]);
                        }
                        if is_parent {
                            assert(name =~= ".."@);
                        }
                    }
                } else {
                    assert(name.len() != ".."@.len());
                }
            }
            if is_parent {
                return None;
            }
            let p = find_last(&cs, b, '.');
            if p >= b || p <= a {
                proof {
                    let d = if p < b && p >= a { p - a } else { -1 };
                    assert forall|k: int| d < k < name.len() implies name[k] != '.' by {
                        assert(name[k] == cs@[a + k]);
                    }
                    lemma_last_dot_unique(name, d);
                }
                None
            } else {
                proof {
                    assert forall|k: int| (p - a) < k < name.len() implies name[k] != '.' by {
                        assert(name[k] == cs@[a + k]);
                    }
                    lemma_last_dot_unique(name, (p - a) as int);
                    assert(name.subrange((p - a) + 1, name.len() as int)
                        =~= cs@.subrange(p + 1, b as int));
                }
                let ext = string_from_chars(slice_range(&cs, p + 1, b).as_slice());
                Some(ext)
            }
        },
    }
}

/// Copies `cs[a..b]`.
fn slice_range(cs: &Vec<char>, a: usize, b: usize) -> (out: Vec<char>)
    requires
        a <= b <= cs@.len(),
    ensures
        out@ == cs@.subrange(a as int, b as int),
{
    let mut out: Vec<char> = Vec::new();
    let mut i: usize = a;
    while i < b
        invariant
            a <= i <= b <= cs@.len(),
            out@ == cs@.subrange(a as int, i as int),
        decreases b - i,
    {
        out.push(cs[i]);
        i = i + 1;
        assert(out@ =~= cs@.subrange(a as int, i as int));
    }
    out
}

/// The risk of a file name: its extension, lower-cased, looked up in the
/// executable list, then the archive list; everything else, a name without
/// extension too, is low risk.
pub open spec fn classify_spec(filename: Seq<char>) -> RiskLevel {
    match path_extension(filename) {
        Some(e) => risk_of_ext(unicode_lowercase(e)),
        None => RiskLevel::Low,
    }
}

/// Classifies the risk of a file by its extension.
pub fn classify(filename: &str) -> (r: RiskLevel)
    ensures
        r == classify_spec(filename@),
{
    match extension_of(filename) {
        None => RiskLevel::Low,
        Some(ext) => {
            let lower = to_lowercase(ext.as_str());
            if high_risk_ext(lower.as_str()) {
                RiskLevel::High
            } else if medium_risk_ext(lower.as_str()) {
                RiskLevel::Medium
            } else {
                RiskLevel::Low
            }
        },
    }
}

/// Executables and scripts are high risk: a file whose extension, lower
/// cased, is one of `app bash bat cmd com deb dll dmg dylib exe fish inf js
/// jse msi pif pkg ps1 psd1 psm1 reg rpm scr sh so vbe vbs wsf wsh zsh` is
/// classified high risk, whatever the rest of its name.
pub proof fn executables_are_high_risk(e: Seq<char>, filename: Seq<char>)
    requires
        e == "app"@ || e == "bash"@ || e == "bat"@ || e == "cmd"@ || e == "com"@ || e == "deb"@
            || e == "dll"@ || e == "dmg"@ || e == "dylib"@ || e == "exe"@ || e == "fish"@
            || e == "inf"@ || e == "js"@ || e == "jse"@ || e == "msi"@ || e == "pif"@ || e == "pkg"@
            || e == "ps1"@ || e == "psd1"@ || e == "psm1"@ || e == "reg"@ || e == "rpm"@
            || e == "scr"@ || e == "sh"@ || e == "so"@ || e == "vbe"@ || e == "vbs"@ || e == "wsf"@
            || e == "wsh"@ || e == "zsh"@,
    ensures
        risk_of_ext(e) == RiskLevel::High,
        (path_extension(filename) matches Some(x) && unicode_lowercase(x) == e) ==> classify_spec(filename)
            == RiskLevel::High,
{
}

/// Archives are medium risk: a file whose extension, lower cased, is one of
/// `zip tar gz tgz bz2 xz 7z rar jar war ear apk ipa` is classified medium
/// risk, whatever the rest of its name.
pub proof fn archives_are_medium_risk(e: Seq<char>, filename: Seq<char>)
    requires
        e == "7z"@ || e == "apk"@ || e == "bz2"@ || e == "ear"@ || e == "gz"@ || e == "ipa"@
            || e == "jar"@ || e == "rar"@ || e == "tar"@ || e == "tgz"@ || e == "war"@ || e == "xz"@
            || e == "zip"@,
    ensures
        risk_of_ext(e) == RiskLevel::Medium,
        (path_extension(filename) matches Some(x) && unicode_lowercase(x) == e) ==> classify_spec(filename)
            == RiskLevel::Medium,
{
    // The two lists share no extension: every archive extension differs
    // from every executable one in its length or in one of its first three
    // characters.
    reveal_strlit("exe");
    reveal_strlit("bat");
    reveal_strlit("cmd");
    reveal_strlit("com");
    reveal_strlit("msi");
    reveal_strlit("dll");
    reveal_strlit("so");
    reveal_strlit("dylib");
    reveal_strlit("sh");
    reveal_strlit("bash");
    reveal_strlit("zsh");
    reveal_strlit("fish");
    reveal_strlit("ps1");
    reveal_strlit("psm1");
    reveal_strlit("psd1");
    reveal_strlit("app");
    reveal_strlit("dmg");
    reveal_strlit("pkg");
    reveal_strlit("deb");
    reveal_strlit("rpm");
    reveal_strlit("vbs");
    reveal_strlit("vbe");
    reveal_strlit("js");
    reveal_strlit("jse");
    reveal_strlit("wsf");
    reveal_strlit("wsh");
    reveal_strlit("scr");
    reveal_strlit("pif");
    reveal_strlit("reg");
    reveal_strlit("inf");
    reveal_strlit("zip");
    reveal_strlit("tar");
    reveal_strlit("gz");
    reveal_strlit("tgz");
    reveal_strlit("bz2");
    reveal_strlit("xz");
    reveal_strlit("7z");
    reveal_strlit("rar");
    reveal_strlit("jar");
    reveal_strlit("war");
    reveal_strlit("ear");
    reveal_strlit("apk");
    reveal_strlit("ipa");
    if e == "zip"@ {
        assert(e.len() == 3 && e[0] == 'z' && e[1] == 'i' && e[2] == 'p');
    }
    if e == "tar"@ {
        assert(e.len() == 3 && e[0] == 't' && e[1] == 'a' && e[2] == 'r');
    }
    if e == "gz"@ {
        assert(e.len() == 2 && e[0] == 'g' && e[1] == 'z');
    }
    if e == "tgz"@ {
        assert(e.len() == 3 && e[0] == 't' && e[1] == 'g' && e[2] == 'z');
    }
    if e == "bz2"@ {
        assert(e.len() == 3 && e[0] == 'b' && e[1] == 'z' && e[2] == '2');
    }
    if e == "xz"@ {
        assert(e.len() == 2 && e[0] == 'x' && e[1] == 'z');
    }
    if e == "7z"@ {
        assert(e.len() == 2 && e[0] == '7' && e[1] == 'z');
    }
    if e == "rar"@ {
        assert(e.len() == 3 && e[0] == 'r' && e[1] == 'a' && e[2] == 'r');
    }
    if e == "jar"@ {
        assert(e.len() == 3 && e[0] == 'j' && e[1] == 'a' && e[2] == 'r');
    }
    if e == "war"@ {
        assert(e.len() == 3 && e[0] == 'w' && e[1] == 'a' && e[2] == 'r');
    }
    if e == "ear"@ {
        assert(e.len() == 3 && e[0] == 'e' && e[1] == 'a' && e[2] == 'r');
    }
    if e == "apk"@ {
        assert(e.len() == 3 && e[0] == 'a' && e[1] == 'p' && e[2] == 'k');
    }
    if e == "ipa"@ {
        assert(e.len() == 3 && e[0] == 'i' && e[1] == 'p' && e[2] == 'a');
    }
}

/// Everything else is low risk: a file whose extension, lower cased, is in
/// neither list above (documents, media, text, no extension at all) is
/// classified low risk.
pub proof fn other_files_are_low_risk(e: Seq<char>, filename: Seq<char>)
    requires
        e != "exe"@ && e != "bat"@ && e != "cmd"@ && e != "com"@ && e != "msi"@ && e != "dll"@
            && e != "so"@ && e != "dylib"@ && e != "sh"@ && e != "bash"@ && e != "zsh"@ && e != "fish"@
            && e != "ps1"@ && e != "psm1"@ && e != "psd1"@ && e != "app"@ && e != "dmg"@ && e != "pkg"@
            && e != "deb"@ && e != "rpm"@ && e != "vbs"@ && e != "vbe"@ && e != "js"@ && e != "jse"@
            && e != "wsf"@ && e != "wsh"@ && e != "scr"@ && e != "pif"@ && e != "reg"@ && e != "inf"@
            && e != "zip"@ && e != "tar"@ && e != "gz"@ && e != "tgz"@ && e != "bz2"@ && e != "xz"@
            && e != "7z"@ && e != "rar"@ && e != "jar"@ && e != "war"@ && e != "ear"@ && e != "apk"@
            && e != "ipa"@,
    ensures
        risk_of_ext(e) == RiskLevel::Low,
        (path_extension(filename) matches Some(x) && unicode_lowercase(x) == e) ==> classify_spec(filename)
            == RiskLevel::Low,
        path_extension(filename) is None ==> classify_spec(filename) == RiskLevel::Low,
{
}

/// The fingerprint both sides read out: the first twelve characters of a
/// checksum in three groups of four, joined by `-`.
pub open spec fn fingerprint_text(s: Seq<char>) -> Seq<char> {
    s.subrange(0, 4) + "-"@ + s.subrange(4, 8) + "-"@ + s.subrange(8, 12)
}

/// The first twelve characters of `s`, or all of it when it is shorter.
pub open spec fn head12(s: Seq<char>) -> Seq<char> {
    if s.len() <= 12 {
        s
    } else {
        s.take(12)
    }
}

/// Bytes that the UTF-8 encoding of the first `k` characters of `t` takes.
pub open spec fn utf8_prefix_len(t: Seq<char>, k: int) -> int
    decreases k,
{
    if k <= 0 {
        0
    } else {
        utf8_prefix_len(t, k - 1) + utf8_width(t[k - 1])
    }
}

/// Whether byte `n` of the UTF-8 encoding of `t` is where a character
/// starts, or its end.
pub open spec fn starts_char_at(t: Seq<char>, n: int) -> bool {
    exists|k: int| 0 <= k <= t.len() && utf8_prefix_len(t, k) == n
}

/// How many characters of `t` the first `n` bytes of its encoding hold,
/// where `n` is a character boundary.
pub open spec fn chars_within(t: Seq<char>, n: int) -> int {
    choose|k: int| 0 <= k <= t.len() && utf8_prefix_len(t, k) == n
}

/// A checksum the fingerprint can be cut from: the UTF-8 text of its first
/// twelve characters is at least twelve bytes long, and bytes 4, 8 and 12
/// of it are character boundaries.
pub open spec fn fingerprintable(s: Seq<char>) -> bool {
    let t = head12(s);
    &&& starts_char_at(t, 4)
    &&& starts_char_at(t, 8)
    &&& starts_char_at(t, 12)
}

/// The fingerprint of a checksum: of the UTF-8 text of its first twelve
/// characters, bytes 0 to 4, 4 to 8 and 8 to 12, joined by `-`.
pub open spec fn fingerprint_of(s: Seq<char>) -> Seq<char> {
    let t = head12(s);
    let a = chars_within(t, 4);
    let b = chars_within(t, 8);
    let c = chars_within(t, 12);
    t.subrange(0, a) + "-"@ + t.subrange(a, b) + "-"@ + t.subrange(b, c)
}

proof fn lemma_prefix_len_grows(t: Seq<char>, i: int, j: int)
    requires
        0 <= i < j <= t.len(),
    ensures
        utf8_prefix_len(t, i) < utf8_prefix_len(t, j),
    decreases j,
{
    if i < j - 1 {
        lemma_prefix_len_grows(t, i, j - 1);
    }
}

proof fn lemma_boundary_unique(t: Seq<char>, n: int, k: int)
    requires
        starts_char_at(t, n),
        0 <= k <= t.len(),
        utf8_prefix_len(t, k) == n,
    ensures
        chars_within(t, n) == k,
{
    let c = chars_within(t, n);
    if c < k {
        lemma_prefix_len_grows(t, c, k);
    } else if k < c {
        lemma_prefix_len_grows(t, k, c);
    }
}

proof fn lemma_ascii_prefix_len(t: Seq<char>, k: int)
    requires
        0 <= k <= t.len(),
        all_ascii(t),
    ensures
        utf8_prefix_len(t, k) == k,
    decreases k,
{
    if k > 0 {
        lemma_ascii_prefix_len(t, k - 1);
    }
}

/// On a checksum whose first twelve characters are ASCII, such as the
/// hexadecimal digests of this crate, the fingerprint is those twelve
/// characters in groups of four.
pub proof fn ascii_checksum_fingerprint(s: Seq<char>)
    requires
        s.len() >= 12,
        all_ascii(s.take(12)),
    ensures
        fingerprintable(s),
        fingerprint_of(s) == fingerprint_text(s),
{
    let t = head12(s);
    assert(t =~= s.take(12));
    lemma_ascii_prefix_len(t, 4);
    lemma_ascii_prefix_len(t, 8);
    lemma_ascii_prefix_len(t, 12);
    lemma_boundary_unique(t, 4, 4);
    lemma_boundary_unique(t, 8, 8);
    lemma_boundary_unique(t, 12, 12);
    assert(t.subrange(0, 4) =~= s.subrange(0, 4));
    assert(t.subrange(4, 8) =~= s.subrange(4, 8));
    assert(t.subrange(8, 12) =~= s.subrange(8, 12));
}

/// Short fingerprint for verbal verification, derived from a checksum.
pub fn session_fingerprint(checksum: &str) -> (f: String)
    requires
        fingerprintable(checksum@),
    ensures
        f@ == fingerprint_of(checksum@),
        checksum@.len() >= 12 && all_ascii(checksum@.take(12)) ==> f@ == fingerprint_text(checksum@),
{
    let cs = chars_of(checksum);
    let n: usize = if cs.len() < 12 { cs.len() } else { 12 };
    let ghost t = head12(checksum@);
    let ghost a = chars_within(t, 4);
    let ghost b = chars_within(t, 8);
    let ghost c = chars_within(t, 12);
    proof {
        reveal_strlit("-");
        assert(t.len() == n);
        assert forall|k: int| 0 <= k < n implies t[k] == cs@[k] by {}
        lemma_boundary_unique(t, 4, a);
        lemma_boundary_unique(t, 8, b);
        lemma_boundary_unique(t, 12, c);
        // The boundaries come in order: the prefix lengths grow strictly.
        if b < a {
            lemma_prefix_len_grows(t, b, a);
        }
        if c < b {
            lemma_prefix_len_grows(t, c, b);
        }
    }
    let mut f = String::new();
    let mut w: usize = 0;
    let mut i: usize = 0;
    while i < n && w < 12
        invariant
            0 <= i <= c,
            0 < a < b < c <= t.len(),
            t.len() == n,
            n <= cs@.len(),
            forall|k: int| 0 <= k < n ==> t[k] == cs@[k],
            utf8_prefix_len(t, a) == 4,
            utf8_prefix_len(t, b) == 8,
            utf8_prefix_len(t, c) == 12,
            w as int == utf8_prefix_len(t, i as int),
            f@ == (if i <= a {
                t.subrange(0, i as int)
            } else if i <= b {
                t.subrange(0, a) + "-"@ + t.subrange(a, i as int)
            } else {
                t.subrange(0, a) + "-"@ + t.subrange(a, b) + "-"@ + t.subrange(b, i as int)
            }),
        decreases n - i,
    {
        proof {
            if c <= i {
                assert(i == c);
            }
            assert(i < c);
            lemma_prefix_len_grows(t, i as int, c);
            if i < a {
                lemma_prefix_len_grows(t, i as int, a);
            } else if a < i {
                lemma_prefix_len_grows(t, a, i as int);
            }
            if i < b {
                lemma_prefix_len_grows(t, i as int, b);
            } else if b < i {
                lemma_prefix_len_grows(t, b, i as int);
            }
        }
        let ch: char = cs[i];
        let ghost f0 = f@;
        let ghost i0 = i as int;
        if w == 4 || w == 8 {
            f.push('-');
        }
        f.push(ch);
        assert(f@ == (if i0 == a || i0 == b { f0.push('-').push(ch) } else { f0.push(ch) }));
        let u: u32 = ch as u32;
        let width: usize = if u < 0x80 {
            1
        } else if u < 0x800 {
            2
        } else if u < 0x10000 {
            3
        } else {
            4
        };
        w = w + width;
        i = i + 1;
        proof {
            reveal_strlit("-");
            assert(t[i0] == ch);
            if i <= a {
                assert(f@ =~= t.subrange(0, i as int));
            } else if i <= b {
                if i0 == a {
                    assert(f0 == t.subrange(0, a));
                } else {
                    assert(f0 == t.subrange(0, a) + "-"@ + t.subrange(a, i0));
                }
                assert(f@ =~= t.subrange(0, a) + "-"@ + t.subrange(a, i as int));
            } else {
                if i0 == b {
                    assert(f0 == t.subrange(0, a) + "-"@ + t.subrange(a, b));
                } else {
                    assert(f0 == t.subrange(0, a) + "-"@ + t.subrange(a, b) + "-"@ + t.subrange(b, i0));
                }
                assert(f@ =~= t.subrange(0, a) + "-"@ + t.subrange(a, b) + "-"@ + t.subrange(b, i as int));
            }
        }
    }
    proof {
        if i < c {
            lemma_prefix_len_grows(t, i as int, c);
        }
        assert(i == c);
        if checksum@.len() >= 12 && all_ascii(checksum@.take(12)) {
            ascii_checksum_fingerprint(checksum@);
        }
    }
    f
}

/// A reply that accepts a prompt: `yes` in any case, surrounding white
/// space ignored.
pub open spec fn is_yes_spec(input: Seq<char>) -> bool {
    unicode_lowercase(trim_seq(input)) == "yes"@
}

/// Whether a typed reply accepts a prompt.
pub fn is_yes(input: &str) -> (b: bool)
    ensures
        b == is_yes_spec(input@),
{
    let t = trim(input);
    let l = to_lowercase(t.as_str());
    str_eq(l.as_str(), "yes")
}

/// What the receiver is shown before accepting a file.
#[derive(Debug)]
pub struct TransferConsent {
    pub filename: String,
    pub total_size: u64,
    pub extension: String,
    pub risk: RiskLevel,
    pub checksum: String,
    pub fingerprint: String,
    pub sender_addr: String,
}

impl TransferConsent {
    /// The consent information for an incoming file (its size is shown in
    /// MB by the caller).
    pub fn build(filename: &str, total_size: u64, checksum: &str, sender_addr: &str) -> (c: TransferConsent)
        requires
            fingerprintable(checksum@),
        ensures
            c.filename@ == filename@,
            c.total_size == total_size,
            c.extension@ == match path_extension(filename@) {
                Some(e) => e,
                None => "unknown"@,
            },
            c.risk == classify_spec(filename@),
            c.checksum@ == checksum@,
            c.fingerprint@ == fingerprint_of(checksum@),
            c.sender_addr@ == sender_addr@,
    {
        let extension = match extension_of(filename) {
            Some(e) => e,
            None => {
                let mut s = String::new();
                push_all(&mut s, "unknown");
                assert(Seq::<char>::empty() + "unknown"@ =~= "unknown"@);
                s
            },
        };
        let mut f = String::new();
        push_all(&mut f, filename);
        let mut c = String::new();
        push_all(&mut c, checksum);
        let mut a = String::new();
        push_all(&mut a, sender_addr);
        assert(Seq::<char>::empty() + filename@ =~= filename@);
        assert(Seq::<char>::empty() + checksum@ =~= checksum@);
        assert(Seq::<char>::empty() + sender_addr@ =~= sender_addr@);
        TransferConsent {
            filename: f,
            total_size,
            extension,
            risk: classify(filename),
            checksum: c,
            fingerprint: session_fingerprint(checksum),
            sender_addr: a,
        }
    }
}

/// The local record of one accept/reject decision.
#[derive(Debug)]
pub struct AcceptanceRecord {
    pub timestamp: Timestamp,
    pub filename: String,
    pub size_bytes: u64,
    pub checksum: String,
    pub fingerprint: String,
    pub risk_level: String,
    pub sender_addr: String,
    /// `accepted` or `rejected`.
    pub decision: String,
    pub dest_path: String,
}

impl AcceptanceRecord {
    /// The record of deciding on `consent` at `now`.
    pub fn from_decision(consent: &TransferConsent, total_size: u64, accepted: bool, dest_path: &str, now: Timestamp) -> (r: AcceptanceRecord)
        ensures
            r.timestamp == now,
            r.filename == consent.filename,
            r.size_bytes == total_size,
            r.checksum == consent.checksum,
            r.fingerprint == consent.fingerprint,
            r.risk_level@ == risk_label(consent.risk),
            r.sender_addr == consent.sender_addr,
            r.decision@ == if accepted { "accepted"@ } else { "rejected"@ },
            r.dest_path@ == dest_path@,
    {
        let mut risk_level = String::new();
        push_all(&mut risk_level, consent.risk.label());
        let mut decision = String::new();
        push_all(&mut decision, if accepted { "accepted" } else { "rejected" });
        let mut d = String::new();
        push_all(&mut d, dest_path);
        assert(Seq::<char>::empty() + risk_label(consent.risk) =~= risk_label(consent.risk));
        assert(Seq::<char>::empty() + "accepted"@ =~= "accepted"@);
        assert(Seq::<char>::empty() + "rejected"@ =~= "rejected"@);
        assert(Seq::<char>::empty() + dest_path@ =~= dest_path@);
        AcceptanceRecord {
            timestamp: now,
            filename: consent.filename.clone(),
            size_bytes: total_size,
            checksum: consent.checksum.clone(),
            fingerprint: consent.fingerprint.clone(),
            risk_level,
            sender_addr: consent.sender_addr.clone(),
            decision,
            dest_path: d,
        }
    }
}

} // verus!

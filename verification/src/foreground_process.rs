//! Finding the "foreground process" near a working directory: reading the
//! output of `lsof -F pn -d cwd` and `ps -o pid=,pcpu=,etime=,command=`, and
//! picking the youngest process that is not a shell or a daemon.
//!
//! Running `lsof` and `ps` is the caller's part; everything here works on
//! their text output.
use vstd::prelude::*;
use vstd::string::StringSliceAdditionalSpecFns;
use vstd::utf8::encode_utf8;
use crate::paths::{file_name_of, path_file_name};
use crate::text::{
    after_first_word, chars_of, decimal, exec_is_ascii_ws, find_char, first_word, index_of_char,
    is_float_text, is_float_text_range,
    is_ascii_ws, lines, next_word, parse_u32_range, parse_u64_range, parse_uint, push_char,
    push_decimal, range_eq, range_is, range_starts_with, split_lines, string_of, trim_start,
    trim_start_from, views,
};

verus! {

/// A process as one line of `ps` output describes it.
#[derive(Clone, Debug)]
pub struct ForegroundProcess {
    pub pid: u32,
    pub name: String,
    pub command_line: String,
    /// The `%CPU` column exactly as `ps` printed it.
    pub cpu_percent: String,
    /// Seconds since the process started (the `etime` column).
    pub elapsed: u64,
}

/// Display form of a command line: itself when it fits in 60 bytes,
/// otherwise its first 59 characters and an ellipsis.
pub open spec fn short_command_text(cl: Seq<char>) -> Seq<char> {
    if encode_utf8(cl).len() <= 60 {
        cl
    } else if cl.len() <= 59 {
        cl.push('…')
    } else {
        cl.take(59).push('…')
    }
}

/// `12s`, `3m4s` or `1h2m`.
pub open spec fn elapsed_text(secs: nat) -> Seq<char> {
    if secs < 60 {
        decimal(secs).push('s')
    } else if secs < 3600 {
        decimal(secs / 60).push('m') + decimal(secs % 60).push('s')
    } else {
        decimal(secs / 3600).push('h') + decimal((secs % 3600) / 60).push('m')
    }
}

impl ForegroundProcess {
    pub fn short_command(&self) -> (r: String)
        ensures
            r@ == short_command_text(self.command_line@),
    {
        let cs = self.command_line.as_str();
        let bytes = cs.as_bytes();
        proof {
            assert(cs@ == self.command_line@);
            assert(bytes@ == encode_utf8(self.command_line@));
        }
        if bytes.len() <= 60 {
            self.command_line.clone()
        } else {
            let v = chars_of(self.command_line.as_str());
            let n = if v.len() <= 59 {
                v.len()
            } else {
                59
            };
            let mut s = string_of(&v, 0, n);
            push_char(&mut s, '…');
            proof {
                if v.len() <= 59 {
                    assert(v@.subrange(0, n as int) =~= v@);
                } else {
                    assert(v@.subrange(0, n as int) =~= v@.take(59));
                }
            }
            s
        }
    }

    pub fn elapsed_pretty(&self) -> (r: String)
        ensures
            r@ == elapsed_text(self.elapsed as nat),
    {
        let secs = self.elapsed;
        let mut s = String::new();
        if secs < 60 {
            push_decimal(&mut s, secs as u128);
            push_char(&mut s, 's');
        } else if secs < 3600 {
            push_decimal(&mut s, (secs / 60) as u128);
            push_char(&mut s, 'm');
            push_decimal(&mut s, (secs % 60) as u128);
            push_char(&mut s, 's');
        } else {
            push_decimal(&mut s, (secs / 3600) as u128);
            push_char(&mut s, 'h');
            push_decimal(&mut s, ((secs % 3600) / 60) as u128);
            push_char(&mut s, 'm');
        }
        proof {
            if secs >= 60 {
                assert(s@ =~= elapsed_text(secs as nat));
            }
        }
        s
    }
}

// ---------------------------------------------------------------------
// Paths
// ---------------------------------------------------------------------

/// `candidate` is `parent` itself or lies inside it (raw text comparison):
/// it continues `parent` past a `/`, either one that ends `parent` (as in
/// `/` or `/srv/`) or one that follows it.
pub open spec fn within(candidate: Seq<char>, parent: Seq<char>) -> bool {
    ||| candidate == parent
    ||| candidate.len() > parent.len() && parent.is_prefix_of(candidate) && (candidate[parent.len() as int]
        == '/' || (parent.len() > 0 && parent.last() == '/'))
}

/// True when `candidate` equals or is a descendant of `parent`. Both
/// strings are compared as raw paths (no canonicalization, no symlink
/// resolution).
pub fn path_is_within(candidate: &str, parent: &str) -> (r: bool)
    ensures
        r == within(candidate@, parent@),
{
    let c = chars_of(candidate);
    let p = chars_of(parent);
    proof {
        assert(c@.subrange(0, c@.len() as int) =~= c@);
    }
    if range_eq(&c, 0, c.len(), &p) {
        return true;
    }
    if p.len() >= c.len() {
        return false;
    }
    let prefix = range_eq(&c, 0, p.len(), &p);
    proof {
        assert(p@.is_prefix_of(c@) <==> c@.subrange(0, p@.len() as int) =~= p@);
    }
    prefix && (c[p.len()] == '/' || (p.len() > 0 && p[p.len() - 1] == '/'))
}

// ---------------------------------------------------------------------
// `ps` elapsed time
// ---------------------------------------------------------------------

/// The `[HH:]MM:SS` part of an `etime` field as `(hours, minutes, seconds)`.
pub open spec fn clock_fields(rest: Seq<char>) -> Option<(int, int, int)> {
    let c1 = index_of_char(rest, ':') as int;
    let r2 = rest.skip(c1 + 1);
    let c2 = index_of_char(r2, ':') as int;
    let r3 = r2.skip(c2 + 1);
    let c3 = index_of_char(r3, ':') as int;
    if c1 == rest.len() {
        None
    } else if c2 == r2.len() {
        match (parse_uint(rest.take(c1), u64::MAX as int), parse_uint(r2, u64::MAX as int)) {
            (Some(m), Some(sec)) => Some((0, m, sec)),
            _ => None,
        }
    } else if c3 == r3.len() {
        match (
            parse_uint(rest.take(c1), u64::MAX as int),
            parse_uint(r2.take(c2), u64::MAX as int),
            parse_uint(r3, u64::MAX as int),
        ) {
            (Some(h), Some(m), Some(sec)) => Some((h, m, sec)),
            _ => None,
        }
    } else {
        None
    }
}

/// The seconds that a `ps` `etime` field (`MM:SS`, `HH:MM:SS` or
/// `DD-HH:MM:SS`) stands for, before reduction to 64 bits.
pub open spec fn etime_total(s: Seq<char>) -> Option<int> {
    let dash = index_of_char(s, '-') as int;
    let days = if dash < s.len() {
        parse_uint(s.take(dash), u64::MAX as int)
    } else {
        Some(0)
    };
    let rest = if dash < s.len() {
        s.skip(dash + 1)
    } else {
        s
    };
    match (days, clock_fields(rest)) {
        (Some(d), Some((h, m, sec))) => Some(d * 86400 + h * 3600 + m * 60 + sec),
        _ => None,
    }
}

/// `etime_total` as the 64-bit count of seconds that `parse_etime` returns.
pub open spec fn etime_secs(s: Seq<char>) -> Option<u64> {
    match etime_total(s) {
        Some(t) => Some((t % 0x1_0000_0000_0000_0000) as u64),
        None => None,
    }
}

proof fn lemma_wrapping_add(x: u64, y: u64)
    ensures
        x.wrapping_add(y) == ((x as int + y as int) % 0x1_0000_0000_0000_0000),
{
}

proof fn lemma_mod_sum(a: int, b: int)
    ensures
        ((a % 0x1_0000_0000_0000_0000) + (b % 0x1_0000_0000_0000_0000)) % 0x1_0000_0000_0000_0000
            == (a + b) % 0x1_0000_0000_0000_0000,
{
    vstd::arithmetic::div_mod::lemma_add_mod_noop(a, b, 0x1_0000_0000_0000_0000);
}

/// `(a * b) mod 2^64` computed with wrapping multiplication.
fn wrap_mul(a: u64, b: u64) -> (r: u64)
    ensures
        r == (a as int * b as int) % 0x1_0000_0000_0000_0000,
{
    a.wrapping_mul(b)
}

/// `(a + b) mod 2^64` computed with wrapping addition.
fn wrap_add(a: u64, b: u64) -> (r: u64)
    ensures
        r == (a as int + b as int) % 0x1_0000_0000_0000_0000,
{
    proof {
        lemma_wrapping_add(a, b);
    }
    a.wrapping_add(b)
}

/// `d * 86400 + h * 3600 + m * 60 + s` reduced to 64 bits.
fn etime_combine(d: u64, h: u64, m: u64, s: u64) -> (r: u64)
    ensures
        r == (d as int * 86400 + h as int * 3600 + m as int * 60 + s as int)
            % 0x1_0000_0000_0000_0000,
{
    let a = wrap_mul(d, 86400);
    let b = wrap_mul(h, 3600);
    let c = wrap_mul(m, 60);
    let ab = wrap_add(a, b);
    let abc = wrap_add(ab, c);
    let r = wrap_add(abc, s);
    proof {
        let dd = d as int * 86400;
        let hh = h as int * 3600;
        let mm = m as int * 60;
        lemma_mod_sum(dd, hh);
        lemma_mod_sum(dd + hh, mm);
        lemma_mod_sum(dd + hh + mm, s as int);
        assert(s as int % 0x1_0000_0000_0000_0000 == s as int);
        assert(ab == (dd + hh) % 0x1_0000_0000_0000_0000);
        assert(mm % 0x1_0000_0000_0000_0000 == c);
        assert(abc == (dd + hh + mm) % 0x1_0000_0000_0000_0000);
    }
    r
}

/// Reads `v[lo..hi]` as the `[HH:]MM:SS` part of an `etime` field.
fn parse_clock(v: &Vec<char>, lo: usize, hi: usize) -> (r: Option<(u64, u64, u64)>)
    requires
        lo <= hi <= v.len(),
    ensures
        match clock_fields(v@.subrange(lo as int, hi as int)) {
            Some((h, m, sec)) => r is Some && r.unwrap().0 == h && r.unwrap().1 == m
                && r.unwrap().2 == sec,
            None => r is None,
        },
{
    let ghost rest = v@.subrange(lo as int, hi as int);
    let c1 = find_char(v, lo, hi, ':');
    if c1 == hi {
        return None;
    }
    let ghost r2 = rest.skip(c1 - lo + 1);
    proof {
        assert(r2 =~= v@.subrange(c1 + 1, hi as int));
        assert(rest.take(c1 - lo) =~= v@.subrange(lo as int, c1 as int));
    }
    let c2 = find_char(v, c1 + 1, hi, ':');
    if c2 == hi {
        let m = parse_u64_range(v, lo, c1);
        let sec = parse_u64_range(v, c1 + 1, hi);
        return match (m, sec) {
            (Some(m), Some(sec)) => Some((0, m, sec)),
            _ => None,
        };
    }
    let ghost r3 = r2.skip(c2 - c1);
    proof {
        assert(r3 =~= v@.subrange(c2 + 1, hi as int));
        assert(r2.take(c2 - c1 - 1) =~= v@.subrange(c1 + 1, c2 as int));
    }
    let c3 = find_char(v, c2 + 1, hi, ':');
    if c3 < hi {
        return None;
    }
    let h = parse_u64_range(v, lo, c1);
    let m = parse_u64_range(v, c1 + 1, c2);
    let sec = parse_u64_range(v, c2 + 1, hi);
    match (h, m, sec) {
        (Some(h), Some(m), Some(sec)) => Some((h, m, sec)),
        _ => None,
    }
}

/// `ps` etime formats: `MM:SS`, `HH:MM:SS`, or `DD-HH:MM:SS`, as seconds.
/// The sum wraps at 2^64 as unchecked 64-bit arithmetic does.
pub fn parse_etime(s: &str) -> (r: Option<u64>)
    ensures
        r == etime_secs(s@),
{
    let v = chars_of(s);
    let len = v.len();
    let ghost sv = v@;
    proof {
        assert(v@.subrange(0, len as int) =~= v@);
    }
    let dash = find_char(&v, 0, len, '-');
    let (days, rest_lo) = if dash < len {
        proof {
            assert(v@.subrange(0, dash as int) =~= sv.take(dash as int));
        }
        match parse_u64_range(&v, 0, dash) {
            Some(d) => (d, dash + 1),
            None => {
                return None;
            },
        }
    } else {
        (0u64, 0usize)
    };
    proof {
        if dash < len {
            assert(v@.subrange(rest_lo as int, len as int) =~= sv.skip(dash + 1));
        } else {
            assert(v@.subrange(rest_lo as int, len as int) =~= sv);
        }
    }
    let ghost rest = if dash < len {
        sv.skip(dash + 1)
    } else {
        sv
    };
    proof {
        assert(sv == s@);
        if dash < len {
            assert(parse_uint(sv.take(dash as int), u64::MAX as int) == Some(days as int));
        }
    }
    match parse_clock(&v, rest_lo, len) {
        Some((h, m, sec)) => {
            proof {
                assert(clock_fields(rest) == Some((h as int, m as int, sec as int)));
                assert(etime_total(sv) == Some(
                    days as int * 86400 + h as int * 3600 + m as int * 60 + sec as int,
                ));
            }
            Some(etime_combine(days, h, m, sec))
        },
        None => None,
    }
}

// ---------------------------------------------------------------------
// Uninteresting processes
// ---------------------------------------------------------------------

/// Shell, multiplexer and daemon names that never count as the foreground
/// process.
pub open spec fn uninteresting(name: Seq<char>) -> bool {
    ||| name == "zsh"@
    ||| name == "bash"@
    ||| name == "fish"@
    ||| name == "dash"@
    ||| name == "sh"@
    ||| name == "tmux"@
    ||| name == "screen"@
    ||| name == "ssh-agent"@
    ||| name == "warp-oss"@
    ||| name == "warp"@
    ||| name == "Code Helper"@
    ||| "login"@.is_prefix_of(name)
    ||| "sshd"@.is_prefix_of(name)
    ||| "warp"@.is_prefix_of(name)
}

/// The exact names of shells, multiplexers and daemons that never count
/// as the foreground process.
pub open spec fn shell_and_daemon_names() -> Seq<Seq<char>> {
    seq![
        "zsh"@,
        "bash"@,
        "fish"@,
        "dash"@,
        "sh"@,
        "tmux"@,
        "screen"@,
        "ssh-agent"@,
        "warp-oss"@,
        "warp"@,
        "Code Helper"@,
    ]
}

/// Name prefixes of login shells, ssh daemons and the terminal itself.
pub open spec fn shell_and_daemon_prefixes() -> Seq<Seq<char>> {
    seq!["login"@, "sshd"@, "warp"@]
}

/// A process name is passed over exactly when it is one of the listed
/// shell and daemon names or begins with one of the listed prefixes;
/// every other name (`ssh`, `cargo`, `vim`, ...) is a candidate.
pub proof fn uninteresting_names_are_exactly_the_listed_ones(name: Seq<char>)
    ensures
        uninteresting(name) <==> (shell_and_daemon_names().contains(name) || exists|i: int|
            0 <= i < shell_and_daemon_prefixes().len()
                && (#[trigger] shell_and_daemon_prefixes()[i]).is_prefix_of(name)),
{
    let names = shell_and_daemon_names();
    let prefixes = shell_and_daemon_prefixes();
    if uninteresting(name) {
        if name == "zsh"@ {
            assert(names[0] == name);
        } else if name == "bash"@ {
            assert(names[1] == name);
        } else if name == "fish"@ {
            assert(names[2] == name);
        } else if name == "dash"@ {
            assert(names[3] == name);
        } else if name == "sh"@ {
            assert(names[4] == name);
        } else if name == "tmux"@ {
            assert(names[5] == name);
        } else if name == "screen"@ {
            assert(names[6] == name);
        } else if name == "ssh-agent"@ {
            assert(names[7] == name);
        } else if name == "warp-oss"@ {
            assert(names[8] == name);
        } else if name == "warp"@ {
            assert(names[9] == name);
        } else if name == "Code Helper"@ {
            assert(names[10] == name);
        } else if "login"@.is_prefix_of(name) {
            assert(prefixes[0].is_prefix_of(name));
        } else if "sshd"@.is_prefix_of(name) {
            assert(prefixes[1].is_prefix_of(name));
        } else {
            assert(prefixes[2].is_prefix_of(name));
        }
    }
    if names.contains(name) {
        let k = choose|k: int| 0 <= k < names.len() && names[k] == name;
        assert(0 <= k < 11);
    }
    if exists|i: int| 0 <= i < prefixes.len() && (#[trigger] prefixes[i]).is_prefix_of(name) {
        let k = choose|k: int| 0 <= k < prefixes.len() && (#[trigger] prefixes[k]).is_prefix_of(name);
        assert(0 <= k < 3);
    }
}

pub fn is_uninteresting(name: &str) -> (r: bool)
    ensures
        r == uninteresting(name@),
{
    let v = chars_of(name);
    let n = v.len();
    proof {
        assert(v@.subrange(0, n as int) =~= v@);
    }
    range_is(&v, 0, n, "zsh") || range_is(&v, 0, n, "bash") || range_is(&v, 0, n, "fish")
        || range_is(&v, 0, n, "dash") || range_is(&v, 0, n, "sh") || range_is(&v, 0, n, "tmux")
        || range_is(&v, 0, n, "screen") || range_is(&v, 0, n, "ssh-agent") || range_is(
        &v,
        0,
        n,
        "warp-oss",
    ) || range_is(&v, 0, n, "warp") || range_is(&v, 0, n, "Code Helper") || range_starts_with(
        &v,
        0,
        n,
        "login",
    ) || range_starts_with(&v, 0, n, "sshd") || range_starts_with(&v, 0, n, "warp")
}

// ---------------------------------------------------------------------
// `ps` lines
// ---------------------------------------------------------------------

/// Length of the ASCII-whitespace run that starts `s`.
pub open spec fn ascii_ws_run(s: Seq<char>) -> nat
    decreases s.len(),
{
    if s.len() > 0 && is_ascii_ws(s[0]) {
        1 + ascii_ws_run(s.drop_first())
    } else {
        0
    }
}

/// Length of the run of non-ASCII-whitespace characters that starts `s`.
pub open spec fn ascii_token_run(s: Seq<char>) -> nat
    decreases s.len(),
{
    if s.len() > 0 && !is_ascii_ws(s[0]) {
        1 + ascii_token_run(s.drop_first())
    } else {
        0
    }
}

/// Offset of the text after the first `k` ASCII-whitespace-separated
/// tokens of `s` and the whitespace that follows them.
pub open spec fn command_offset(s: Seq<char>, k: nat) -> nat
    decreases k,
{
    let a = ascii_ws_run(s);
    if k == 0 {
        a
    } else {
        let b = ascii_token_run(s.skip(a as int));
        a + b + command_offset(s.skip((a + b) as int), (k - 1) as nat)
    }
}

proof fn lemma_ascii_ws_run_is(s: Seq<char>, k: int)
    requires
        0 <= k <= s.len(),
        forall|j: int| 0 <= j < k ==> is_ascii_ws(#[trigger] s[j]),
        k == s.len() || !is_ascii_ws(s[k]),
    ensures
        ascii_ws_run(s) == k,
    decreases k,
{
    if k > 0 {
        lemma_ascii_ws_run_is(s.drop_first(), k - 1);
    }
}

proof fn lemma_ascii_token_run_is(s: Seq<char>, k: int)
    requires
        0 <= k <= s.len(),
        forall|j: int| 0 <= j < k ==> !is_ascii_ws(#[trigger] s[j]),
        k == s.len() || is_ascii_ws(s[k]),
    ensures
        ascii_token_run(s) == k,
    decreases k,
{
    if k > 0 {
        lemma_ascii_token_run_is(s.drop_first(), k - 1);
    }
}

/// Skips the ASCII whitespace of `v[lo..hi]`.
fn skip_ascii_ws(v: &Vec<char>, lo: usize, hi: usize) -> (r: usize)
    requires
        lo <= hi <= v.len(),
    ensures
        lo <= r <= hi,
        r - lo == ascii_ws_run(v@.subrange(lo as int, hi as int)),
{
    let mut i = lo;
    while i < hi && exec_is_ascii_ws(v[i])
        invariant
            lo <= i <= hi <= v.len(),
            forall|j: int| lo <= j < i ==> is_ascii_ws(#[trigger] v@[j]),
        decreases hi - i,
    {
        i += 1;
    }
    proof {
        let s = v@.subrange(lo as int, hi as int);
        assert forall|j: int| 0 <= j < i - lo implies is_ascii_ws(#[trigger] s[j]) by {
            assert(s[j] == v@[lo + j]);
        }
        lemma_ascii_ws_run_is(s, i - lo);
    }
    i
}

/// Skips the non-ASCII-whitespace characters that start `v[lo..hi]`.
fn skip_ascii_token(v: &Vec<char>, lo: usize, hi: usize) -> (r: usize)
    requires
        lo <= hi <= v.len(),
    ensures
        lo <= r <= hi,
        r - lo == ascii_token_run(v@.subrange(lo as int, hi as int)),
{
    let mut i = lo;
    while i < hi && !exec_is_ascii_ws(v[i])
        invariant
            lo <= i <= hi <= v.len(),
            forall|j: int| lo <= j < i ==> !is_ascii_ws(#[trigger] v@[j]),
        decreases hi - i,
    {
        i += 1;
    }
    proof {
        let s = v@.subrange(lo as int, hi as int);
        assert forall|j: int| 0 <= j < i - lo implies !is_ascii_ws(#[trigger] s[j]) by {
            assert(s[j] == v@[lo + j]);
        }
        lemma_ascii_token_run_is(s, i - lo);
    }
    i
}

/// The start of the command column of a trimmed `ps` line `v[lo..hi]`.
fn command_start(v: &Vec<char>, lo: usize, hi: usize) -> (r: usize)
    requires
        lo <= hi <= v.len(),
    ensures
        lo <= r <= hi,
        r - lo == command_offset(v@.subrange(lo as int, hi as int), 3),
{
    let ghost t = v@.subrange(lo as int, hi as int);
    let mut pos = lo;
    let mut k: usize = 0;
    while k < 3
        invariant
            lo <= pos <= hi <= v.len(),
            k <= 3,
            t == v@.subrange(lo as int, hi as int),
            (pos - lo) + command_offset(v@.subrange(pos as int, hi as int), (3 - k) as nat)
                == command_offset(t, 3),
        decreases 3 - k,
    {
        let a = skip_ascii_ws(v, pos, hi);
        let b = skip_ascii_token(v, a, hi);
        proof {
            let u = v@.subrange(pos as int, hi as int);
            assert(u.skip(a - pos) =~= v@.subrange(a as int, hi as int));
            assert(u.skip(b - pos) =~= v@.subrange(b as int, hi as int));
        }
        pos = b;
        k += 1;
    }
    let r = skip_ascii_ws(v, pos, hi);
    r
}

/// What one `ps -o pid=,pcpu=,etime=,command=` line says:
/// `(pid, %cpu text, elapsed seconds, command line, process name)`. The
/// line describes nothing unless its `%CPU` column reads as an `f32`.
pub open spec fn ps_line_fields(line: Seq<char>) -> Option<(u32, Seq<char>, u64, Seq<char>, Seq<char>)> {
    let t = trim_start(line);
    let r1 = after_first_word(t);
    let r2 = after_first_word(r1);
    match (first_word(t), first_word(r1), first_word(r2)) {
        (Some(w1), Some(w2), Some(w3)) => match (parse_uint(w1, u32::MAX as int), etime_secs(w3)) {
            (Some(pid), Some(elapsed)) => if !is_float_text(w2) {
                None
            } else {
                let cl = t.skip(command_offset(t, 3) as int);
                let name = match first_word(cl) {
                    Some(f) => match path_file_name(f) {
                        Some(n) => n,
                        None => cl,
                    },
                    None => cl,
                };
                Some((pid as u32, w2, elapsed, cl, name))
            },
            _ => None,
        },
        _ => None,
    }
}

/// `p` holds what `fields` says.
pub open spec fn describes(p: ForegroundProcess, fields: (u32, Seq<char>, u64, Seq<char>, Seq<char>)) -> bool {
    &&& p.pid == fields.0
    &&& p.cpu_percent@ == fields.1
    &&& p.elapsed == fields.2
    &&& p.command_line@ == fields.3
    &&& p.name@ == fields.4
}

/// Parses one line of `ps -o pid=,pcpu=,etime=,command=` output. The
/// `%CPU` column is kept as text.
pub fn parse_ps_line(line: &str) -> (r: Option<ForegroundProcess>)
    ensures
        match ps_line_fields(line@) {
            Some(f) => r is Some && describes(r.unwrap(), f),
            None => r is None,
        },
{
    let v = chars_of(line);
    let len = v.len();
    let lo = trim_start_from(&v, 0, len);
    proof {
        assert(v@.subrange(0, len as int) =~= v@);
    }
    let ghost t = v@.subrange(lo as int, len as int);
    let (a1, b1) = next_word(&v, lo, len);
    if a1 == len {
        return None;
    }
    let (a2, b2) = next_word(&v, b1, len);
    if a2 == len {
        return None;
    }
    let (a3, b3) = next_word(&v, b2, len);
    if a3 == len {
        return None;
    }
    let pid = match parse_u32_range(&v, a1, b1) {
        Some(p) => p,
        None => {
            return None;
        },
    };
    if !is_float_text_range(&v, a2, b2) {
        return None;
    }
    let etime = string_of(&v, a3, b3);
    let elapsed = match parse_etime(etime.as_str()) {
        Some(e) => e,
        None => {
            return None;
        },
    };
    let cpu_percent = string_of(&v, a2, b2);
    let start = command_start(&v, lo, len);
    let command_line = string_of(&v, start, len);
    let ghost cl = v@.subrange(start as int, len as int);
    proof {
        assert(t.skip(start - lo) =~= cl);
    }
    let (f1, f2) = next_word(&v, start, len);
    let name = if f1 == len {
        string_of(&v, start, len)
    } else {
        let first = string_of(&v, f1, f2);
        match file_name_of(first.as_str()) {
            Some(n) => n,
            None => string_of(&v, start, len),
        }
    };
    Some(ForegroundProcess { pid, name, command_line, cpu_percent, elapsed })
}

/// The processes that the lines of `ps` output describe, in order; lines
/// that do not parse are skipped.
pub open spec fn ps_output_fields(lines: Seq<Seq<char>>) -> Seq<(u32, Seq<char>, u64, Seq<char>, Seq<char>)>
    decreases lines.len(),
{
    if lines.len() == 0 {
        seq![]
    } else {
        let prev = ps_output_fields(lines.drop_last());
        match ps_line_fields(lines.last()) {
            Some(f) => prev.push(f),
            None => prev,
        }
    }
}

/// Parses the whole output of `ps -o pid=,pcpu=,etime=,command=`.
pub fn processes_from_ps_output(stdout: &str) -> (r: Vec<ForegroundProcess>)
    ensures
        r@.len() == ps_output_fields(lines(stdout@)).len(),
        forall|i: int|
            0 <= i < r@.len() ==> describes(#[trigger] r@[i], ps_output_fields(lines(stdout@))[i]),
{
    let v = chars_of(stdout);
    let ls = split_lines(&v);
    let ghost all = lines(stdout@);
    let mut out: Vec<ForegroundProcess> = Vec::new();
    let mut i: usize = 0;
    while i < ls.len()
        invariant
            i <= ls.len(),
            views(ls@) == all,
            all.len() == ls@.len(),
            out@.len() == ps_output_fields(all.take(i as int)).len(),
            forall|j: int|
                0 <= j < out@.len() ==> describes(
                    #[trigger] out@[j],
                    ps_output_fields(all.take(i as int))[j],
                ),
        decreases ls.len() - i,
    {
        let line = string_of(&ls[i], 0, ls[i].len());
        proof {
            assert(ls@[i as int]@.subrange(0, ls@[i as int]@.len() as int) =~= ls@[i as int]@);
            assert(all[i as int] == ls@[i as int]@);
            assert(all.take(i + 1).drop_last() =~= all.take(i as int));
        }
        match parse_ps_line(line.as_str()) {
            Some(p) => {
                out.push(p);
            },
            None => {},
        }
        i += 1;
    }
    proof {
        assert(all.take(ls.len() as int) =~= all);
    }
    out
}

/// The `-p` argument for `ps`: the pids in decimal, separated by commas.
pub open spec fn pid_list_text(pids: Seq<u32>) -> Seq<char>
    decreases pids.len(),
{
    if pids.len() == 0 {
        seq![]
    } else if pids.len() == 1 {
        decimal(pids[0] as nat)
    } else {
        pid_list_text(pids.drop_last()).push(',') + decimal(pids.last() as nat)
    }
}

pub fn ps_pid_arg(pids: &[u32]) -> (r: String)
    ensures
        r@ == pid_list_text(pids@),
{
    let mut s = String::new();
    let mut i: usize = 0;
    while i < pids.len()
        invariant
            i <= pids.len(),
            s@ == pid_list_text(pids@.take(i as int)),
        decreases pids.len() - i,
    {
        proof {
            assert(pids@.take(i + 1).drop_last() =~= pids@.take(i as int));
        }
        if i > 0 {
            push_char(&mut s, ',');
        }
        push_decimal(&mut s, pids[i] as u128);
        i += 1;
    }
    proof {
        assert(pids@.take(pids.len() as int) =~= pids@);
    }
    s
}

// ---------------------------------------------------------------------
// Picking the foreground process
// ---------------------------------------------------------------------

pub open spec fn interesting(p: ForegroundProcess) -> bool {
    !uninteresting(p.name@)
}

/// `ps[i]` is the first interesting process with the least elapsed time.
pub open spec fn is_best(ps: Seq<ForegroundProcess>, i: int) -> bool {
    &&& 0 <= i < ps.len()
    &&& interesting(ps[i])
    &&& forall|j: int| 0 <= j < ps.len() && interesting(#[trigger] ps[j]) ==> ps[i].elapsed <= ps[j].elapsed
    &&& forall|j: int| 0 <= j < i && interesting(#[trigger] ps[j]) ==> ps[i].elapsed < ps[j].elapsed
}

/// Picks the youngest non-shell process; among equally young ones the
/// first.
pub fn pick_best(procs: Vec<ForegroundProcess>) -> (r: Option<ForegroundProcess>)
    ensures
        r is None <==> (forall|j: int| 0 <= j < procs@.len() ==> !interesting(#[trigger] procs@[j])),
        r is Some ==> exists|i: int| is_best(procs@, i) && r == Some(procs@[i]),
{
    let mut procs = procs;
    let ghost ps = procs@;
    let mut best: Option<usize> = None;
    let mut i: usize = 0;
    while i < procs.len()
        invariant
            i <= procs.len(),
            procs@ == ps,
            match best {
                None => forall|j: int| 0 <= j < i ==> !interesting(#[trigger] ps[j]),
                Some(b) => b < i && is_best(ps.take(i as int), b as int),
            },
        decreases procs.len() - i,
    {
        let interesting_now = !is_uninteresting(procs[i].name.as_str());
        proof {
            assert(ps.take(i + 1)[i as int] == ps[i as int]);
            assert forall|j: int| 0 <= j < i implies #[trigger] ps.take(i + 1)[j] == ps.take(i as int)[j] by {}
        }
        if interesting_now {
            match best {
                None => {
                    best = Some(i);
                },
                Some(b) => {
                    if procs[i].elapsed < procs[b].elapsed {
                        best = Some(i);
                    }
                },
            }
        }
        i += 1;
    }
    proof {
        assert(ps.take(procs.len() as int) =~= ps);
    }
    match best {
        None => None,
        Some(b) => {
            let p = procs.remove(b);
            Some(p)
        },
    }
}

// ---------------------------------------------------------------------
// `lsof` output
// ---------------------------------------------------------------------

/// One step of reading `lsof -F pn` output: a `p` line names the process
/// that the following `n` line belongs to; an `n` line whose path lies
/// within `cwd` records that process.
pub open spec fn lsof_step(state: (Option<u32>, Seq<u32>), line: Seq<char>, cwd: Seq<char>) -> (Option<u32>, Seq<u32>) {
    let (cur, acc) = state;
    if line.len() > 0 && line[0] == 'p' {
        (
            match parse_uint(line.drop_first(), u32::MAX as int) {
                Some(n) => Some(n as u32),
                None => None,
            },
            acc,
        )
    } else if line.len() > 0 && line[0] == 'n' {
        (
            None,
            match cur {
                Some(pid) => if within(line.drop_first(), cwd) {
                    acc.push(pid)
                } else {
                    acc
                },
                None => acc,
            },
        )
    } else {
        (cur, acc)
    }
}

pub open spec fn lsof_scan(lines: Seq<Seq<char>>, cwd: Seq<char>) -> (Option<u32>, Seq<u32>)
    decreases lines.len(),
{
    if lines.len() == 0 {
        (None, seq![])
    } else {
        lsof_step(lsof_scan(lines.drop_last(), cwd), lines.last(), cwd)
    }
}

pub open spec fn strictly_increasing(v: Seq<u32>) -> bool {
    forall|i: int, j: int| 0 <= i < j < v.len() ==> v[i] < v[j]
}

/// Inserts `x` into a strictly increasing vector unless it is there.
fn insert_sorted(v: &mut Vec<u32>, x: u32)
    requires
        strictly_increasing(old(v)@),
    ensures
        strictly_increasing(final(v)@),
        final(v)@.to_set() == old(v)@.to_set().insert(x),
{
    let mut i: usize = 0;
    while i < v.len() && v[i] < x
        invariant
            i <= v.len(),
            forall|j: int| 0 <= j < i ==> v@[j] < x,
        decreases v.len() - i,
    {
        i += 1;
    }
    if i < v.len() && v[i] == x {
        proof {
            assert(v@.to_set() =~= v@.to_set().insert(x)) by {
                assert(v@.contains(x)) by {
                    assert(v@[i as int] == x);
                }
            }
        }
        return;
    }
    let ghost before = v@;
    v.insert(i, x);
    proof {
        assert forall|a: int, b: int| 0 <= a < b < v@.len() implies v@[a] < v@[b] by {
            if b < i {
            } else if b == i {
            } else if a < i {
                assert(v@[b] == before[b - 1]);
                assert(before[b - 1] >= x || b - 1 >= i);
            } else if a == i {
                assert(v@[b] == before[b - 1]);
            } else {
                assert(v@[a] == before[a - 1]);
                assert(v@[b] == before[b - 1]);
            }
        }
        assert(v@.to_set() =~= before.to_set().insert(x)) by {
            assert forall|y: u32| v@.to_set().contains(y) implies before.to_set().insert(x).contains(y) by {
                let k = choose|k: int| 0 <= k < v@.len() && v@[k] == y;
                if k < i {
                    assert(before[k] == y);
                } else if k > i {
                    assert(before[k - 1] == y);
                }
            }
            assert forall|y: u32| before.to_set().insert(x).contains(y) implies v@.to_set().contains(y) by {
                if y == x {
                    assert(v@[i as int] == x);
                } else {
                    let k = choose|k: int| 0 <= k < before.len() && before[k] == y;
                    if k < i {
                        assert(v@[k] == y);
                    } else {
                        assert(v@[k + 1] == y);
                    }
                }
            }
        }
    }
}

/// The pids of the processes whose working directory is `cwd` or lies
/// inside it, according to `lsof -F pn -d cwd` output: sorted, without
/// repetition.
pub fn pids_from_lsof_output(stdout: &str, cwd: &str) -> (r: Vec<u32>)
    ensures
        strictly_increasing(r@),
        r@.to_set() == lsof_scan(lines(stdout@), cwd@).1.to_set(),
{
    let v = chars_of(stdout);
    let ls = split_lines(&v);
    let ghost all = lines(stdout@);
    let mut pids: Vec<u32> = Vec::new();
    let mut current: Option<u32> = None;
    let mut i: usize = 0;
    while i < ls.len()
        invariant
            i <= ls.len(),
            views(ls@) == all,
            all.len() == ls@.len(),
            strictly_increasing(pids@),
            current == lsof_scan(all.take(i as int), cwd@).0,
            pids@.to_set() == lsof_scan(all.take(i as int), cwd@).1.to_set(),
        decreases ls.len() - i,
    {
        let line = &ls[i];
        let n = line.len();
        proof {
            assert(all[i as int] == line@);
            assert(all.take(i + 1).drop_last() =~= all.take(i as int));
            assert(all.take(i + 1).last() == line@);
            if n > 0 {
                assert(line@.drop_first() =~= line@.subrange(1, n as int));
            }
        }
        let ghost acc = lsof_scan(all.take(i as int), cwd@).1;
        if n > 0 && line[0] == 'p' {
            current = parse_u32_range(line, 1, n);
        } else if n > 0 && line[0] == 'n' {
            match current {
                Some(pid) => {
                    let rest = string_of(line, 1, n);
                    if path_is_within(rest.as_str(), cwd) {
                        insert_sorted(&mut pids, pid);
                        proof {
                            acc.lemma_push_to_set_commute(pid);
                        }
                    }
                },
                None => {},
            }
            current = None;
        }
        i += 1;
    }
    proof {
        assert(all.take(ls.len() as int) =~= all);
    }
    pids
}

/// A line that is neither a `p` nor an `n` field.
pub open spec fn other_field(line: Seq<char>) -> bool {
    !(line.len() > 0 && (line[0] == 'p' || line[0] == 'n'))
}

/// Lines of `lsof` output that begin with neither `p` nor `n` (such as
/// the `f` file-descriptor lines) play no part: inserting one anywhere
/// leaves the reading, and so the pids found, unchanged.
pub proof fn lsof_ignores_other_fields(ls: Seq<Seq<char>>, k: int, x: Seq<char>, cwd: Seq<char>)
    requires
        0 <= k <= ls.len(),
        other_field(x),
    ensures
        lsof_scan(ls.insert(k, x), cwd) == lsof_scan(ls, cwd),
    decreases ls.len(),
{
    let t = ls.insert(k, x);
    if k == ls.len() {
        assert(t.drop_last() =~= ls);
        assert(t.last() == x);
    } else {
        assert(t.drop_last() =~= ls.drop_last().insert(k, x));
        assert(t.last() == ls.last());
        lsof_ignores_other_fields(ls.drop_last(), k, x, cwd);
    }
}

proof fn lemma_lsof_skips_others(s: Seq<Seq<char>>, mid: Seq<Seq<char>>, cwd: Seq<char>)
    requires
        forall|i: int| 0 <= i < mid.len() ==> other_field(#[trigger] mid[i]),
    ensures
        lsof_scan(s + mid, cwd) == lsof_scan(s, cwd),
    decreases mid.len(),
{
    if mid.len() == 0 {
        assert(s + mid =~= s);
    } else {
        assert((s + mid).drop_last() =~= s + mid.drop_last());
        assert((s + mid).last() == mid.last());
        assert(other_field(mid[mid.len() - 1]));
        lemma_lsof_skips_others(s, mid.drop_last(), cwd);
    }
}

proof fn lemma_lsof_keeps_found(s: Seq<Seq<char>>, post: Seq<Seq<char>>, cwd: Seq<char>, pid: u32)
    requires
        lsof_scan(s, cwd).1.contains(pid),
    ensures
        lsof_scan(s + post, cwd).1.contains(pid),
    decreases post.len(),
{
    if post.len() == 0 {
        assert(s + post =~= s);
    } else {
        assert((s + post).drop_last() =~= s + post.drop_last());
        lemma_lsof_keeps_found(s, post.drop_last(), cwd, pid);
        let acc = lsof_scan(s + post.drop_last(), cwd).1;
        let k = choose|k: int| 0 <= k < acc.len() && acc[k] == pid;
        assert(acc.push(pid)[k] == pid);
        assert(acc.push(pid).contains(pid));
        let st = lsof_scan(s + post.drop_last(), cwd);
        let line = post.last();
        if line.len() > 0 && line[0] == 'n' {
            match st.0 {
                Some(q) => {
                    assert(acc.push(q)[k] == pid);
                },
                None => {},
            }
        }
    }
}

/// In `lsof` output, an `n` line whose path lies within `cwd` records the
/// pid of the latest `p` line before it, whatever lines that are neither
/// `p` nor `n` stand between them and whatever follows.
pub proof fn lsof_attributes_name_to_its_process(
    pre: Seq<Seq<char>>,
    pline: Seq<char>,
    mid: Seq<Seq<char>>,
    nline: Seq<char>,
    post: Seq<Seq<char>>,
    cwd: Seq<char>,
    pid: u32,
)
    requires
        pline.len() > 0,
        pline[0] == 'p',
        parse_uint(pline.drop_first(), u32::MAX as int) == Some(pid as int),
        forall|i: int| 0 <= i < mid.len() ==> other_field(#[trigger] mid[i]),
        nline.len() > 0,
        nline[0] == 'n',
        within(nline.drop_first(), cwd),
    ensures
        lsof_scan(pre + seq![pline] + mid + seq![nline] + post, cwd).1.contains(pid),
{
    let a = pre + seq![pline];
    assert(a.drop_last() =~= pre);
    assert(a.last() == pline);
    assert(lsof_scan(a, cwd).0 == Some(pid));
    lemma_lsof_skips_others(a, mid, cwd);
    let b = a + mid + seq![nline];
    assert(b.drop_last() =~= a + mid);
    assert(b.last() == nline);
    let acc = lsof_scan(a, cwd).1;
    assert(lsof_scan(b, cwd).1 == acc.push(pid));
    assert(acc.push(pid)[acc.len() as int] == pid);
    lemma_lsof_keeps_found(b, post, cwd, pid);
}

/// `ls[i]` is a `p` line naming `pid`, and `ls[j]` an `n` line with a
/// path within `cwd`, with only lines that are neither between them.
pub open spec fn names_pid_within(ls: Seq<Seq<char>>, i: int, j: int, pid: u32, cwd: Seq<char>) -> bool {
    &&& 0 <= i < j < ls.len()
    &&& ls[i].len() > 0
    &&& ls[i][0] == 'p'
    &&& parse_uint(ls[i].drop_first(), u32::MAX as int) == Some(pid as int)
    &&& forall|k: int| i < k < j ==> other_field(#[trigger] ls[k])
    &&& ls[j].len() > 0
    &&& ls[j][0] == 'n'
    &&& within(ls[j].drop_first(), cwd)
}

/// `ls[i]` is a `p` line naming `pid` and no `p` or `n` line follows it.
pub open spec fn open_pid(ls: Seq<Seq<char>>, i: int, pid: u32) -> bool {
    &&& 0 <= i < ls.len()
    &&& ls[i].len() > 0
    &&& ls[i][0] == 'p'
    &&& parse_uint(ls[i].drop_first(), u32::MAX as int) == Some(pid as int)
    &&& forall|k: int| i < k < ls.len() ==> other_field(#[trigger] ls[k])
}

proof fn lemma_lsof_found_has_source(ls: Seq<Seq<char>>, cwd: Seq<char>)
    ensures
        forall|pid: u32| #[trigger]
            lsof_scan(ls, cwd).1.contains(pid) ==> exists|i: int, j: int|
                #[trigger] names_pid_within(ls, i, j, pid, cwd),
        forall|pid: u32|
            lsof_scan(ls, cwd).0 == Some(pid) ==> exists|i: int| #[trigger] open_pid(ls, i, pid),
    decreases ls.len(),
{
    if ls.len() > 0 {
        let pre = ls.drop_last();
        let l = ls.last();
        let n = ls.len() - 1;
        lemma_lsof_found_has_source(pre, cwd);
        let st = lsof_scan(pre, cwd);
        assert forall|pid: u32| #[trigger] lsof_scan(ls, cwd).1.contains(pid) implies exists|
            i: int,
            j: int,
        | #[trigger] names_pid_within(ls, i, j, pid, cwd) by {
            if st.1.contains(pid) {
                let (i, j) = choose|i: int, j: int| #[trigger] names_pid_within(pre, i, j, pid, cwd);
                assert forall|k: int| i < k < j implies other_field(#[trigger] ls[k]) by {
                    assert(ls[k] == pre[k]);
                }
                assert(ls[i] == pre[i] && ls[j] == pre[j]);
                assert(names_pid_within(ls, i, j, pid, cwd));
            } else {
                assert(l.len() > 0 && l[0] == 'n' && st.0 == Some(pid)) by {
                    if l.len() > 0 && l[0] == 'n' {
                        match st.0 {
                            Some(q) => {
                                if within(l.drop_first(), cwd) {
                                    let acc = st.1;
                                    let k = choose|k: int| 0 <= k < acc.push(q).len() && acc.push(q)[k] == pid;
                                    if k < acc.len() {
                                        assert(acc[k] == pid);
                                    }
                                }
                            },
                            None => {},
                        }
                    }
                }
                let i = choose|i: int| #[trigger] open_pid(pre, i, pid);
                assert forall|k: int| i < k < n implies other_field(#[trigger] ls[k]) by {
                    assert(ls[k] == pre[k]);
                }
                assert(ls[i] == pre[i]);
                assert(names_pid_within(ls, i, n, pid, cwd));
            }
        }
        assert forall|pid: u32| lsof_scan(ls, cwd).0 == Some(pid) implies exists|i: int|
            #[trigger] open_pid(ls, i, pid) by {
            if l.len() > 0 && l[0] == 'p' {
                let r = parse_uint(l.drop_first(), u32::MAX as int);
                assert(r is Some);
                let d = if l.drop_first().len() > 0 && l.drop_first()[0] == '+' {
                    l.drop_first().drop_first()
                } else {
                    l.drop_first()
                };
                crate::text::lemma_digits_value_nonneg(d);
                assert(0 <= r.unwrap() <= u32::MAX);
                assert(r.unwrap() as u32 == pid);
                assert(ls[n] == l);
                assert(open_pid(ls, n, pid));
            } else {
                let i = choose|i: int| #[trigger] open_pid(pre, i, pid);
                assert forall|k: int| i < k < ls.len() implies other_field(#[trigger] ls[k]) by {
                    if k < n {
                        assert(ls[k] == pre[k]);
                    }
                }
                assert(ls[i] == pre[i]);
                assert(open_pid(ls, i, pid));
            }
        }
    }
}

/// The pids read from `lsof` output are exactly those of a `p` line that
/// is followed, with only lines that are neither `p` nor `n` between, by
/// an `n` line whose path lies within `cwd`.
pub proof fn lsof_pids_are_exactly_those_named_within(ls: Seq<Seq<char>>, cwd: Seq<char>, pid: u32)
    ensures
        lsof_scan(ls, cwd).1.contains(pid) <==> exists|i: int, j: int|
            #[trigger] names_pid_within(ls, i, j, pid, cwd),
{
    lemma_lsof_found_has_source(ls, cwd);
    if exists|i: int, j: int| #[trigger] names_pid_within(ls, i, j, pid, cwd) {
        let (i, j) = choose|i: int, j: int| #[trigger] names_pid_within(ls, i, j, pid, cwd);
        let pre = ls.take(i);
        let mid = ls.subrange(i + 1, j);
        let post = ls.skip(j + 1);
        assert(ls =~= pre + seq![ls[i]] + mid + seq![ls[j]] + post);
        assert forall|k: int| 0 <= k < mid.len() implies other_field(#[trigger] mid[k]) by {
            assert(mid[k] == ls[i + 1 + k]);
        }
        lsof_attributes_name_to_its_process(pre, ls[i], mid, ls[j], post, cwd, pid);
    }
}

} // verus!

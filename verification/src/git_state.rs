//! The git status of a repository as the context panel shows it, built
//! from the text that a handful of `git` commands print.
use vstd::prelude::*;
use crate::text::{
    chars_of, index_of_char, lines, parse_u32_range, parse_uint, range_ends_with, range_starts_with,
    split_lines, string_of, trim, trim_bounds, views, is_ws, leading_ws, trailing_ws,
};

verus! {

/// What the context panel knows about a repository.
#[derive(Clone, Debug)]
pub struct GitState {
    pub repo_path: String,
    pub branch: Option<String>,
    pub ahead: u32,
    pub behind: u32,
    pub modified: u32,
    pub untracked: u32,
    pub stashes: u32,
    pub last_commit: Option<String>,
    pub remote_url: Option<String>,
}

impl Default for GitState {
    fn default() -> (r: Self)
        ensures
            r.repo_path@ == Seq::<char>::empty(),
            r.branch is None,
            r.ahead == 0,
            r.behind == 0,
            r.modified == 0,
            r.untracked == 0,
            r.stashes == 0,
            r.last_commit is None,
            r.remote_url is None,
    {
        GitState::empty(String::new())
    }
}

/// The output of each `git` probe, `None` where the command failed.
pub struct GitProbeOutputs {
    /// `git symbolic-ref --short HEAD`
    pub branch: Option<String>,
    /// `git rev-list --count @{u}..HEAD`
    pub ahead: Option<String>,
    /// `git rev-list --count HEAD..@{u}`
    pub behind: Option<String>,
    /// `git status --porcelain`
    pub status: Option<String>,
    /// `git log -1 --oneline`
    pub last_commit: Option<String>,
    /// `git stash list`
    pub stash_list: Option<String>,
    /// `git config --get remote.origin.url`
    pub remote_url: Option<String>,
}

/// A probe's trimmed output, when the probe succeeded and printed
/// something.
pub open spec fn nonblank_output(out: Option<String>) -> Option<Seq<char>> {
    match out {
        Some(o) => if trim(o@).len() > 0 {
            Some(trim(o@))
        } else {
            None
        },
        None => None,
    }
}

/// A count that a probe printed; 0 when the probe failed or printed
/// something else.
pub open spec fn count_output(out: Option<String>) -> u32 {
    match out {
        Some(o) => match parse_uint(trim(o@), u32::MAX as int) {
            Some(n) => n as u32,
            None => 0,
        },
        None => 0,
    }
}

/// Number of `git status --porcelain` lines that mark untracked files.
pub open spec fn untracked_lines(ls: Seq<Seq<char>>) -> nat
    decreases ls.len(),
{
    if ls.len() == 0 {
        0
    } else {
        untracked_lines(ls.drop_last()) + if "??"@.is_prefix_of(ls.last()) {
            1nat
        } else {
            0nat
        }
    }
}

/// Number of other non-blank `git status --porcelain` lines.
pub open spec fn modified_lines(ls: Seq<Seq<char>>) -> nat
    decreases ls.len(),
{
    if ls.len() == 0 {
        0
    } else {
        modified_lines(ls.drop_last()) + if !"??"@.is_prefix_of(ls.last()) && trim(ls.last()).len()
            > 0 {
            1nat
        } else {
            0nat
        }
    }
}

/// Number of non-blank lines.
pub open spec fn nonblank_lines(ls: Seq<Seq<char>>) -> nat
    decreases ls.len(),
{
    if ls.len() == 0 {
        0
    } else {
        nonblank_lines(ls.drop_last()) + if trim(ls.last()).len() > 0 {
            1nat
        } else {
            0nat
        }
    }
}

/// A count kept in 32 bits, wrapping as unchecked arithmetic does.
pub open spec fn wrap32(n: nat) -> u32 {
    (n % 0x1_0000_0000) as u32
}

/// `s` without a trailing `.git`.
pub open spec fn without_dot_git(s: Seq<char>) -> Seq<char> {
    if ".git"@.is_suffix_of(s) {
        s.take(s.len() - ".git"@.len())
    } else {
        s
    }
}

/// `owner/repo` for `git@host:owner/repo(.git)` and
/// `http(s)://host/owner/repo(.git)` remotes, otherwise the raw URL.
pub open spec fn pretty_remote_text(raw: Seq<char>) -> Seq<char> {
    let colon = index_of_char(raw, ':') as int;
    if colon < raw.len() && "git@"@.is_prefix_of(raw) {
        without_dot_git(raw.skip(colon + 1))
    } else {
        let rest = if "https://"@.is_prefix_of(raw) {
            Some(raw.skip("https://"@.len() as int))
        } else if "http://"@.is_prefix_of(raw) {
            Some(raw.skip("http://"@.len() as int))
        } else {
            None
        };
        match rest {
            Some(r) => {
                let slash = index_of_char(r, '/') as int;
                if slash < r.len() {
                    without_dot_git(r.skip(slash + 1))
                } else {
                    raw
                }
            },
            None => raw,
        }
    }
}

/// Removes a trailing `.git`.
pub fn strip_dot_git(s: &str) -> (r: String)
    ensures
        r@ == without_dot_git(s@),
{
    let v = chars_of(s);
    let n = v.len();
    proof {
        assert(v@.subrange(0, n as int) =~= v@);
    }
    let dotgit = chars_of(".git");
    if range_ends_with(&v, 0, n, ".git") {
        string_of(&v, 0, n - dotgit.len())
    } else {
        string_of(&v, 0, n)
    }
}

/// The trimmed text of a probe's output, when there is any.
fn nonblank(out: &Option<String>) -> (r: Option<String>)
    ensures
        match nonblank_output(*out) {
            Some(t) => r is Some && r.unwrap()@ == t,
            None => r is None,
        },
{
    match out {
        Some(o) => {
            let v = chars_of(o.as_str());
            let (a, b) = trim_bounds(&v, 0, v.len());
            proof {
                assert(v@.subrange(0, v@.len() as int) =~= v@);
            }
            if a < b {
                Some(string_of(&v, a, b))
            } else {
                None
            }
        },
        None => None,
    }
}

/// The count that a probe printed, 0 otherwise.
fn count_of(out: &Option<String>) -> (r: u32)
    ensures
        r == count_output(*out),
{
    match out {
        Some(o) => {
            let v = chars_of(o.as_str());
            let (a, b) = trim_bounds(&v, 0, v.len());
            proof {
                assert(v@.subrange(0, v@.len() as int) =~= v@);
            }
            match parse_u32_range(&v, a, b) {
                Some(n) => n,
                None => 0,
            }
        },
        None => 0,
    }
}

/// `(modified, untracked)` counted over `git status --porcelain` output.
/// The porcelain lines that mark untracked files: those starting `??`.
pub open spec fn untracked_entries(ls: Seq<Seq<char>>) -> Seq<Seq<char>> {
    ls.filter(|l: Seq<char>| "??"@.is_prefix_of(l))
}

/// The porcelain lines that name a file: the non-blank ones.
pub open spec fn entries(ls: Seq<Seq<char>>) -> Seq<Seq<char>> {
    ls.filter(|l: Seq<char>| trim(l).len() > 0)
}

proof fn lemma_trailing_ws_short(s: Seq<char>)
    requires
        s.len() > 0,
        !is_ws(s[0]),
    ensures
        trailing_ws(s) < s.len(),
    decreases s.len(),
{
    if is_ws(s.last()) {
        assert(s.len() > 1);
        assert(s.drop_last()[0] == s[0]);
        lemma_trailing_ws_short(s.drop_last());
    }
}

/// A line that starts with a character other than whitespace is not
/// blank.
proof fn lemma_not_blank(s: Seq<char>)
    requires
        s.len() > 0,
        !is_ws(s[0]),
    ensures
        trim(s).len() > 0,
{
    assert(leading_ws(s) == 0);
    assert(s.skip(0) =~= s);
    lemma_trailing_ws_short(s);
}

/// Every entry of `git status --porcelain` is counted exactly once: the
/// untracked count is the number of lines starting `??`, and the modified
/// and untracked counts together are the number of non-blank lines, so
/// any other entry (` M`, ` D`, `A `, `R `, `UU`, ...) counts as modified.
pub proof fn porcelain_entries_are_counted_once(ls: Seq<Seq<char>>)
    ensures
        untracked_lines(ls) == untracked_entries(ls).len(),
        modified_lines(ls) + untracked_lines(ls) == entries(ls).len(),
    decreases ls.len(),
{
    reveal(Seq::filter);
    if ls.len() > 0 {
        porcelain_entries_are_counted_once(ls.drop_last());
        let l = ls.last();
        assert(untracked_entries(ls) == if "??"@.is_prefix_of(l) {
            untracked_entries(ls.drop_last()).push(l)
        } else {
            untracked_entries(ls.drop_last())
        });
        assert(entries(ls) == if trim(l).len() > 0 {
            entries(ls.drop_last()).push(l)
        } else {
            entries(ls.drop_last())
        });
        if "??"@.is_prefix_of(l) {
            reveal_strlit("??");
            assert("??"@[0] == '?');
            assert(l.subrange(0, 2)[0] == l[0]);
            assert(l[0] == '?');
            lemma_not_blank(l);
        }
    }
}

/// For the counts `porcelain_counts` returns: the two together are the
/// number of non-blank lines of the status text, in 32 bits.
pub proof fn porcelain_counts_cover_every_entry(status: Seq<char>)
    ensures
        (wrap32(modified_lines(lines(status))) + wrap32(untracked_lines(lines(status))))
            % 0x1_0000_0000 == entries(lines(status)).len() % 0x1_0000_0000,
        wrap32(untracked_lines(lines(status))) == untracked_entries(lines(status)).len()
            % 0x1_0000_0000,
{
    porcelain_entries_are_counted_once(lines(status));
    vstd::arithmetic::div_mod::lemma_add_mod_noop(
        modified_lines(lines(status)) as int,
        untracked_lines(lines(status)) as int,
        0x1_0000_0000,
    );
}

pub fn porcelain_counts(status: &str) -> (r: (u32, u32))
    ensures
        r.0 == wrap32(modified_lines(lines(status@))),
        r.1 == wrap32(untracked_lines(lines(status@))),
{
    let v = chars_of(status);
    let ls = split_lines(&v);
    let ghost all = lines(status@);
    let mut modified: u32 = 0;
    let mut untracked: u32 = 0;
    let mut i: usize = 0;
    while i < ls.len()
        invariant
            i <= ls.len(),
            views(ls@) == all,
            all.len() == ls@.len(),
            modified == wrap32(modified_lines(all.take(i as int))),
            untracked == wrap32(untracked_lines(all.take(i as int))),
        decreases ls.len() - i,
    {
        let line = &ls[i];
        let n = line.len();
        proof {
            assert(all[i as int] == line@);
            assert(all.take(i + 1).drop_last() =~= all.take(i as int));
            assert(line@.subrange(0, n as int) =~= line@);
        }
        if range_starts_with(line, 0, n, "??") {
            untracked = untracked.wrapping_add(1);
        } else {
            let (a, b) = trim_bounds(line, 0, n);
            if a < b {
                modified = modified.wrapping_add(1);
            }
        }
        i += 1;
    }
    proof {
        assert(all.take(ls.len() as int) =~= all);
    }
    (modified, untracked)
}

/// Number of non-blank lines of `git stash list` output.
pub fn stash_count(stash_list: &str) -> (r: u32)
    ensures
        r == wrap32(nonblank_lines(lines(stash_list@))),
{
    let v = chars_of(stash_list);
    let ls = split_lines(&v);
    let ghost all = lines(stash_list@);
    let mut count: u32 = 0;
    let mut i: usize = 0;
    while i < ls.len()
        invariant
            i <= ls.len(),
            views(ls@) == all,
            all.len() == ls@.len(),
            count == wrap32(nonblank_lines(all.take(i as int))),
        decreases ls.len() - i,
    {
        let line = &ls[i];
        let n = line.len();
        proof {
            assert(all[i as int] == line@);
            assert(all.take(i + 1).drop_last() =~= all.take(i as int));
            assert(line@.subrange(0, n as int) =~= line@);
        }
        let (a, b) = trim_bounds(line, 0, n);
        if a < b {
            count = count.wrapping_add(1);
        }
        i += 1;
    }
    proof {
        assert(all.take(ls.len() as int) =~= all);
    }
    count
}

impl GitState {
    pub fn empty(repo_path: String) -> (r: Self)
        ensures
            r.repo_path == repo_path,
            r.branch is None,
            r.ahead == 0,
            r.behind == 0,
            r.modified == 0,
            r.untracked == 0,
            r.stashes == 0,
            r.last_commit is None,
            r.remote_url is None,
    {
        GitState {
            repo_path,
            branch: None,
            ahead: 0,
            behind: 0,
            modified: 0,
            untracked: 0,
            stashes: 0,
            last_commit: None,
            remote_url: None,
        }
    }

    /// The state that the probes' outputs describe; a failed probe leaves
    /// its part as `empty` has it.
    pub fn from_probe_outputs(repo_path: String, probes: &GitProbeOutputs) -> (r: Self)
        ensures
            r.repo_path == repo_path,
            match nonblank_output(probes.branch) {
                Some(b) => r.branch is Some && r.branch.unwrap()@ == b,
                None => r.branch is None,
            },
            r.ahead == count_output(probes.ahead),
            r.behind == count_output(probes.behind),
            match probes.status {
                Some(s) => r.modified == wrap32(modified_lines(lines(s@))) && r.untracked == wrap32(
                    untracked_lines(lines(s@)),
                ),
                None => r.modified == 0 && r.untracked == 0,
            },
            match probes.stash_list {
                Some(s) => r.stashes == wrap32(nonblank_lines(lines(s@))),
                None => r.stashes == 0,
            },
            match nonblank_output(probes.last_commit) {
                Some(c) => r.last_commit is Some && r.last_commit.unwrap()@ == c,
                None => r.last_commit is None,
            },
            match nonblank_output(probes.remote_url) {
                Some(u) => r.remote_url is Some && r.remote_url.unwrap()@ == u,
                None => r.remote_url is None,
            },
    {
        let mut state = GitState::empty(repo_path);
        state.branch = nonblank(&probes.branch);
        state.ahead = count_of(&probes.ahead);
        state.behind = count_of(&probes.behind);
        match &probes.status {
            Some(s) => {
                let (m, u) = porcelain_counts(s.as_str());
                state.modified = m;
                state.untracked = u;
            },
            None => {},
        }
        state.last_commit = nonblank(&probes.last_commit);
        match &probes.stash_list {
            Some(s) => {
                state.stashes = stash_count(s.as_str());
            },
            None => {},
        }
        state.remote_url = nonblank(&probes.remote_url);
        state
    }

    /// Best-effort prettifier for a remote URL: keeps `owner/repo` for
    /// GitHub-style remotes (https or ssh), otherwise returns the raw
    /// URL.
    pub fn pretty_remote(&self) -> (r: Option<String>)
        ensures
            match self.remote_url {
                Some(raw) => r is Some && r.unwrap()@ == pretty_remote_text(raw@),
                None => r is None,
            },
    {
        let raw = match &self.remote_url {
            Some(raw) => raw,
            None => {
                return None;
            },
        };
        let v = chars_of(raw.as_str());
        let n = v.len();
        proof {
            assert(v@.subrange(0, n as int) =~= v@);
        }
        let colon = crate::text::find_char(&v, 0, n, ':');
        if colon < n && range_starts_with(&v, 0, n, "git@") {
            let path = string_of(&v, colon + 1, n);
            proof {
                assert(v@.subrange(colon + 1, n as int) =~= v@.skip(colon + 1));
            }
            return Some(strip_dot_git(path.as_str()));
        }
        let https = chars_of("https://");
        let http = chars_of("http://");
        let rest_lo = if range_starts_with(&v, 0, n, "https://") {
            Some(https.len())
        } else if range_starts_with(&v, 0, n, "http://") {
            Some(http.len())
        } else {
            None
        };
        match rest_lo {
            Some(lo) => {
                proof {
                    assert(v@.subrange(lo as int, n as int) =~= v@.skip(lo as int));
                }
                let slash = crate::text::find_char(&v, lo, n, '/');
                if slash < n {
                    let path = string_of(&v, slash + 1, n);
                    proof {
                        let r = v@.skip(lo as int);
                        assert(r.skip(slash - lo + 1) =~= v@.subrange(slash + 1, n as int));
                    }
                    return Some(strip_dot_git(path.as_str()));
                }
            },
            None => {},
        }
        Some(raw.clone())
    }
}

} // verus!

//! The state of the context panel's cards and the text lines they show.
//! Drawing the cards, subscribing to models and spawning the fetches is
//! the caller's part.
use vstd::prelude::*;
use crate::foreground_process::{elapsed_text, short_command_text, ForegroundProcess};
use crate::git_state::{pretty_remote_text, GitState};
use crate::paths::{extension_of, path_eq, paths_equal, path_extension, path_strip_prefix, strip_path_prefix};
use crate::text::{append_str, chars_of, decimal, push_char, push_decimal, string_of};

verus! {

/// Events of the context panel host view.
pub enum ContextPanelEvent {
    ClosePanel,
}

/// A path held by a card, by its text.
pub open spec fn opt_view(o: Option<String>) -> Option<Seq<char>> {
    match o {
        Some(s) => Some(s@),
        None => None,
    }
}

/// Two optional paths are the same: both absent, or both present with
/// the same components.
pub open spec fn same_path_text(a: Option<Seq<char>>, b: Option<Seq<char>>) -> bool {
    match (a, b) {
        (Some(x), Some(y)) => path_eq(x, y),
        (None, None) => true,
        _ => false,
    }
}

/// Whether two optional paths are the same path.
pub fn same_path(a: &Option<String>, b: &Option<String>) -> (r: bool)
    ensures
        r == same_path_text(opt_view(*a), opt_view(*b)),
{
    match (a, b) {
        (Some(x), Some(y)) => paths_equal(x.as_str(), y.as_str()),
        (None, None) => true,
        _ => false,
    }
}

fn copy_opt(a: &Option<String>) -> (r: Option<String>)
    ensures
        opt_view(r) == opt_view(*a),
{
    match a {
        Some(s) => Some(s.clone()),
        None => None,
    }
}

pub open spec fn line_views(v: Seq<String>) -> Seq<Seq<char>> {
    v.map_values(|s: String| s@)
}

fn line_of(lit: &str) -> (r: String)
    ensures
        r@ == lit@,
{
    let mut s = String::new();
    append_str(&mut s, lit);
    s
}

// ---------------------------------------------------------------------
// Git card
// ---------------------------------------------------------------------

/// The git card: the focused repository, its state once fetched, and
/// whether a fetch is running.
pub struct GitWidget {
    pub repo: Option<String>,
    pub state: Option<GitState>,
    pub loading: bool,
}

/// `"1 commit"` / `"2 commits"`-style plural suffix.
pub open spec fn plural_s(n: nat) -> Seq<char> {
    if n == 1 {
        ""@
    } else {
        "s"@
    }
}

/// A line that a part of the card shows when it has something to say.
pub open spec fn line_if(o: Option<Seq<char>>) -> Seq<Seq<char>> {
    match o {
        Some(l) => seq![l],
        None => seq![],
    }
}

/// The branch line: name, commits ahead and behind.
pub open spec fn branch_text(st: GitState) -> Option<Seq<char>> {
    match st.branch {
        Some(b) => Some(
            b@ + " • "@ + decimal(st.ahead as nat) + "↑ "@ + decimal(st.behind as nat) + "↓"@,
        ),
        None => None,
    }
}

/// The remote line, shortened for display.
pub open spec fn remote_text(st: GitState) -> Option<Seq<char>> {
    match st.remote_url {
        Some(raw) => Some(pretty_remote_text(raw@)),
        None => None,
    }
}

/// The working-tree line.
pub open spec fn changes_text(st: GitState) -> Seq<char> {
    if st.modified > 0 || st.untracked > 0 {
        decimal(st.modified as nat) + " modified, "@ + decimal(st.untracked as nat) + " untracked"@
    } else {
        "Working tree clean"@
    }
}

/// The stash line, when there are stash entries.
pub open spec fn stash_text(st: GitState) -> Option<Seq<char>> {
    if st.stashes > 0 {
        Some(
            decimal(st.stashes as nat) + " stash entr"@ + (if st.stashes == 1 {
                "y"@
            } else {
                "ies"@
            }),
        )
    } else {
        None
    }
}

/// The push hint, when the branch is ahead of its upstream.
pub open spec fn push_text(st: GitState) -> Option<Seq<char>> {
    if st.ahead > 0 {
        Some("git push to send "@ + decimal(st.ahead as nat) + " commit"@ + plural_s(st.ahead as nat))
    } else {
        None
    }
}

/// The last-commit line.
pub open spec fn commit_text(st: GitState) -> Option<Seq<char>> {
    match st.last_commit {
        Some(c) => Some("Last: "@ + c@),
        None => None,
    }
}

/// The lines that the git card shows for a fetched state.
pub open spec fn git_state_lines(st: GitState) -> Seq<Seq<char>> {
    line_if(branch_text(st)) + line_if(remote_text(st)) + seq![changes_text(st)] + line_if(
        stash_text(st),
    ) + line_if(push_text(st)) + line_if(commit_text(st))
}

fn push_line_if(out: &mut Vec<String>, line: Option<String>)
    ensures
        line_views(final(out)@) == line_views(old(out)@) + line_if(opt_view(line)),
{
    match line {
        Some(l) => {
            out.push(l);
            proof {
                assert(line_views(final(out)@) =~= line_views(old(out)@) + line_if(opt_view(Some(l))));
            }
        },
        None => {
            proof {
                assert(line_views(out@) =~= line_views(old(out)@) + line_if(None));
            }
        },
    }
}

fn branch_line(st: &GitState) -> (r: Option<String>)
    ensures
        opt_view(r) == branch_text(*st),
{
    match &st.branch {
        Some(b) => {
            let mut s = String::new();
            append_str(&mut s, b.as_str());
            append_str(&mut s, " • ");
            push_decimal(&mut s, st.ahead as u128);
            append_str(&mut s, "↑ ");
            push_decimal(&mut s, st.behind as u128);
            append_str(&mut s, "↓");
            Some(s)
        },
        None => None,
    }
}

fn changes_line(st: &GitState) -> (r: String)
    ensures
        r@ == changes_text(*st),
{
    if st.modified > 0 || st.untracked > 0 {
        let mut s = String::new();
        push_decimal(&mut s, st.modified as u128);
        append_str(&mut s, " modified, ");
        push_decimal(&mut s, st.untracked as u128);
        append_str(&mut s, " untracked");
        s
    } else {
        line_of("Working tree clean")
    }
}

fn stash_line(st: &GitState) -> (r: Option<String>)
    ensures
        opt_view(r) == stash_text(*st),
{
    if st.stashes > 0 {
        let mut s = String::new();
        push_decimal(&mut s, st.stashes as u128);
        append_str(&mut s, " stash entr");
        if st.stashes == 1 {
            append_str(&mut s, "y");
        } else {
            append_str(&mut s, "ies");
        }
        Some(s)
    } else {
        None
    }
}

fn push_line(st: &GitState) -> (r: Option<String>)
    ensures
        opt_view(r) == push_text(*st),
{
    if st.ahead > 0 {
        let mut s = String::new();
        append_str(&mut s, "git push to send ");
        push_decimal(&mut s, st.ahead as u128);
        append_str(&mut s, " commit");
        if st.ahead != 1 {
            append_str(&mut s, "s");
        }
        proof {
            if st.ahead == 1 {
                reveal_strlit("");
                assert(s@ =~= s@ + plural_s(st.ahead as nat));
            }
        }
        Some(s)
    } else {
        None
    }
}

fn commit_line(st: &GitState) -> (r: Option<String>)
    ensures
        opt_view(r) == commit_text(*st),
{
    match &st.last_commit {
        Some(c) => {
            let mut s = String::new();
            append_str(&mut s, "Last: ");
            append_str(&mut s, c.as_str());
            Some(s)
        },
        None => None,
    }
}

fn state_lines(st: &GitState) -> (r: Vec<String>)
    ensures
        line_views(r@) == git_state_lines(*st),
{
    let mut out: Vec<String> = Vec::new();
    proof {
        assert(line_views(out@) =~= seq![]);
    }
    push_line_if(&mut out, branch_line(st));
    push_line_if(&mut out, st.pretty_remote());
    push_line_if(&mut out, Some(changes_line(st)));
    push_line_if(&mut out, stash_line(st));
    push_line_if(&mut out, push_line(st));
    push_line_if(&mut out, commit_line(st));
    proof {
        assert(line_views(out@) =~= git_state_lines(*st));
    }
    out
}

/// The lines that the git card shows.
pub open spec fn git_card_lines(w: GitWidget) -> Seq<Seq<char>> {
    if w.repo is None {
        seq!["(not a git repository)"@]
    } else if w.loading && w.state is None {
        seq!["Loading…"@]
    } else {
        match w.state {
            Some(st) => git_state_lines(st),
            None => seq!["(no git data)"@],
        }
    }
}

/// The card after the focus moved to `focused`: unchanged for the same
/// repository, otherwise showing `focused` with no state, loading when
/// there is a repository to fetch.
pub open spec fn git_after_focus(w: GitWidget, focused: Option<String>) -> GitWidget {
    if same_path_text(opt_view(focused), opt_view(w.repo)) {
        w
    } else {
        GitWidget { repo: focused, state: None, loading: focused is Some }
    }
}

/// Whether the card keeps a fetch result for `result_path`: only one for
/// the repository it shows.
pub open spec fn git_keeps(w: GitWidget, result_path: Seq<char>) -> bool {
    same_path_text(opt_view(w.repo), Some(result_path))
}

impl GitWidget {
    /// The card for the initially focused repository; a fetch is running
    /// when there is one.
    pub fn new(initial_repo: Option<String>) -> (r: Self)
        ensures
            r.repo == initial_repo,
            r.state is None,
            r.loading == initial_repo is Some,
    {
        let loading = initial_repo.is_some();
        GitWidget { repo: initial_repo, state: None, loading }
    }

    /// The focused repository changed. When it is another one, the card
    /// forgets the old state and returns the repository to fetch.
    pub fn handle_focused_repo_changed(&mut self, focused_repo: Option<String>) -> (fetch: Option<
        String,
    >)
        ensures
            *final(self) == git_after_focus(*old(self), focused_repo),
            same_path_text(opt_view(focused_repo), opt_view(old(self).repo)) ==> *final(self) == *old(self)
                && fetch is None,
            !same_path_text(opt_view(focused_repo), opt_view(old(self).repo)) ==> {
                &&& final(self).repo == focused_repo
                &&& final(self).state is None
                &&& final(self).loading == focused_repo is Some
                &&& opt_view(fetch) == opt_view(focused_repo)
            },
    {
        if same_path(&focused_repo, &self.repo) {
            return None;
        }
        let fetch = copy_opt(&focused_repo);
        self.loading = focused_repo.is_some();
        self.repo = focused_repo;
        self.state = None;
        fetch
    }

    /// A fetch finished. Its result is kept only when it is for the
    /// repository that the card shows now; returns whether it was kept.
    pub fn accept_fetch_result(&mut self, state: GitState) -> (kept: bool)
        ensures
            kept == git_keeps(*old(self), state.repo_path@),
            kept ==> final(self).repo == old(self).repo && final(self).state == Some(state)
                && !final(self).loading,
            !kept ==> *final(self) == *old(self),
    {
        let matches = match &self.repo {
            Some(r) => paths_equal(r.as_str(), state.repo_path.as_str()),
            None => false,
        };
        if matches {
            self.state = Some(state);
            self.loading = false;
        }
        matches
    }

    /// The text lines of the card.
    pub fn body_lines(&self) -> (r: Vec<String>)
        ensures
            line_views(r@) == git_card_lines(*self),
    {
        let mut out: Vec<String> = Vec::new();
        if self.repo.is_none() {
            out.push(line_of("(not a git repository)"));
            proof {
                assert(line_views(out@) =~= seq!["(not a git repository)"@]);
            }
            return out;
        }
        if self.loading && self.state.is_none() {
            out.push(line_of("Loading…"));
            proof {
                assert(line_views(out@) =~= seq!["Loading…"@]);
            }
            return out;
        }
        match &self.state {
            None => {
                out.push(line_of("(no git data)"));
                proof {
                    assert(line_views(out@) =~= seq!["(no git data)"@]);
                }
                out
            },
            Some(st) => state_lines(st),
        }
    }
}

/// A fetch result for the repository that was shown before the focus
/// moved to another one is not kept after the move.
pub proof fn stale_git_result_is_ignored(
    w: GitWidget,
    focused_repo: Option<String>,
    result_path: Seq<char>,
)
    requires
        opt_view(w.repo) == Some(result_path),
        !same_path_text(opt_view(focused_repo), opt_view(w.repo)),
    ensures
        !git_keeps(git_after_focus(w, focused_repo), result_path),
{
}

// ---------------------------------------------------------------------
// Running-process card
// ---------------------------------------------------------------------

/// The running-process card: the directory it samples, the process found
/// there, whether a sample came back, and the generation of the latest
/// request.
pub struct ForegroundProcessWidget {
    pub cwd: Option<String>,
    pub process: Option<ForegroundProcess>,
    pub sampled: bool,
    pub poll_generation: u64,
}

/// The card after its directory changed to `cwd`: no process, not
/// sampled, a new generation.
pub open spec fn fg_switched(w: ForegroundProcessWidget, cwd: Option<String>) -> ForegroundProcessWidget {
    ForegroundProcessWidget {
        cwd,
        process: None,
        sampled: false,
        poll_generation: w.poll_generation.wrapping_add(1),
    }
}

/// The card after the focus moved to `focused`: unchanged for the same
/// directory, otherwise switched to it.
pub open spec fn fg_after_focus(w: ForegroundProcessWidget, focused: Option<String>) -> ForegroundProcessWidget {
    if same_path_text(opt_view(focused), opt_view(w.cwd)) {
        w
    } else {
        fg_switched(w, focused)
    }
}

/// Whether the card keeps a sample that carries `generation`.
pub open spec fn fg_keeps(w: ForegroundProcessWidget, generation: u64) -> bool {
    generation == w.poll_generation
}

impl ForegroundProcessWidget {
    pub fn new(cwd: Option<String>) -> (r: Self)
        ensures
            r.cwd == cwd,
            r.process is None,
            !r.sampled,
            r.poll_generation == 0,
    {
        ForegroundProcessWidget { cwd, process: None, sampled: false, poll_generation: 0 }
    }

    /// The sample to take now: the directory and the generation it
    /// carries; none without a directory.
    pub fn fetch_request(&self) -> (r: Option<(String, u64)>)
        ensures
            match self.cwd {
                Some(c) => r is Some && r.unwrap().0@ == c@ && r.unwrap().1 == self.poll_generation,
                None => r is None,
            },
    {
        match &self.cwd {
            Some(c) => Some((c.clone(), self.poll_generation)),
            None => None,
        }
    }

    fn switch_to(&mut self, new_cwd: Option<String>)
        ensures
            final(self).cwd == new_cwd,
            final(self).process is None,
            !final(self).sampled,
            final(self).poll_generation == old(self).poll_generation.wrapping_add(1),
    {
        self.cwd = new_cwd;
        self.process = None;
        self.sampled = false;
        self.poll_generation = self.poll_generation.wrapping_add(1);
    }

    /// The focused repository changed. A change of directory drops the old
    /// sample and starts a new generation; returns whether it changed.
    pub fn handle_focused_repo_changed(&mut self, focused_repo: Option<String>) -> (changed: bool)
        ensures
            changed == (!same_path_text(opt_view(focused_repo), opt_view(old(self).cwd))),
            *final(self) == fg_after_focus(*old(self), focused_repo),
            !changed ==> *final(self) == *old(self),
            changed ==> final(self).cwd == focused_repo && final(self).process is None
                && !final(self).sampled && final(self).poll_generation
                == old(self).poll_generation.wrapping_add(1),
    {
        if same_path(&focused_repo, &self.cwd) {
            return false;
        }
        self.switch_to(focused_repo);
        true
    }

    /// A repository was detected; only one the user navigated to in a
    /// terminal moves the card.
    pub fn handle_detected_repo(&mut self, repo_root: Option<String>, from_terminal_navigation: bool) -> (changed: bool)
        ensures
            changed == (from_terminal_navigation && !same_path_text(opt_view(repo_root), opt_view(old(self).cwd))),
            *final(self) == (if from_terminal_navigation {
                fg_after_focus(*old(self), repo_root)
            } else {
                *old(self)
            }),
            !changed ==> *final(self) == *old(self),
            changed ==> final(self).cwd == repo_root && final(self).process is None
                && !final(self).sampled && final(self).poll_generation
                == old(self).poll_generation.wrapping_add(1),
    {
        if !from_terminal_navigation {
            return false;
        }
        self.handle_focused_repo_changed(repo_root)
    }

    /// A sample came back. It is kept only when it carries the current
    /// generation; returns whether it was kept.
    pub fn accept_fetch_result(&mut self, generation: u64, process: Option<ForegroundProcess>) -> (kept: bool)
        ensures
            kept == fg_keeps(*old(self), generation),
            kept ==> final(self).process == process && final(self).sampled && final(self).cwd
                == old(self).cwd && final(self).poll_generation == old(self).poll_generation,
            !kept ==> *final(self) == *old(self),
    {
        if self.poll_generation != generation {
            return false;
        }
        self.process = process;
        self.sampled = true;
        true
    }

    /// The card's message when it shows no process: `None` when a process
    /// is shown.
    pub fn message_line(&self) -> (r: Option<String>)
        ensures
            self.cwd is None ==> r is Some && r.unwrap()@ == "(no active terminal)"@,
            self.cwd is Some && self.process is Some ==> r is None,
            self.cwd is Some && self.process is None && self.sampled ==> r is Some && r.unwrap()@
                == "(idle)"@,
            self.cwd is Some && self.process is None && !self.sampled ==> r is Some
                && r.unwrap()@ == "Sampling…"@,
    {
        if self.cwd.is_none() {
            Some(line_of("(no active terminal)"))
        } else if self.process.is_some() {
            None
        } else if self.sampled {
            Some(line_of("(idle)"))
        } else {
            Some(line_of("Sampling…"))
        }
    }
}

/// The two lines that describe a running process: its short command,
/// then its age, CPU share and pid. `cpu_rounded` is the `%CPU` value
/// rounded to a whole number, as the caller formatted it.
pub open spec fn process_lines_text(p: ForegroundProcess, cpu_rounded: Seq<char>) -> Seq<Seq<char>> {
    seq![
        short_command_text(p.command_line@),
        elapsed_text(p.elapsed as nat) + " • "@ + cpu_rounded + "% CPU • PID "@ + decimal(
            p.pid as nat,
        ),
    ]
}

/// The lines the card shows for the process it found.
pub fn process_lines(p: &ForegroundProcess, cpu_rounded: &str) -> (r: Vec<String>)
    ensures
        line_views(r@) == process_lines_text(*p, cpu_rounded@),
{
    let mut out: Vec<String> = Vec::new();
    out.push(p.short_command());
    let mut s = p.elapsed_pretty();
    append_str(&mut s, " • ");
    append_str(&mut s, cpu_rounded);
    append_str(&mut s, "% CPU • PID ");
    push_decimal(&mut s, p.pid as u128);
    out.push(s);
    proof {
        assert(line_views(out@) =~= process_lines_text(*p, cpu_rounded@));
    }
    out
}

/// A sample requested before the directory changed (it carries the
/// generation of that time) is not kept after the change.
pub proof fn stale_sample_is_ignored(w: ForegroundProcessWidget, focused_repo: Option<String>)
    requires
        !same_path_text(opt_view(focused_repo), opt_view(w.cwd)),
    ensures
        !fg_keeps(fg_after_focus(w, focused_repo), w.poll_generation),
{
}

// ---------------------------------------------------------------------
// Agent session card
// ---------------------------------------------------------------------

/// The session directory name that the agent CLI uses for a working directory: leading `/`
/// removed, a `-` in front, every `/` turned into `-`.
pub open spec fn encoded_path(path: Seq<char>) -> Seq<char> {
    let lead = leading_slashes(path) as int;
    seq!['-'] + path.skip(lead).map_values(|c: char| if c == '/' { '-' } else { c })
}

pub open spec fn leading_slashes(s: Seq<char>) -> nat
    decreases s.len(),
{
    if s.len() > 0 && s[0] == '/' {
        1 + leading_slashes(s.drop_first())
    } else {
        0
    }
}

proof fn lemma_leading_slashes_is(s: Seq<char>, k: int)
    requires
        0 <= k <= s.len(),
        forall|j: int| 0 <= j < k ==> #[trigger] s[j] == '/',
        k == s.len() || s[k] != '/',
    ensures
        leading_slashes(s) == k,
    decreases k,
{
    if k > 0 {
        lemma_leading_slashes_is(s.drop_first(), k - 1);
    }
}

proof fn lemma_leading_slashes_bound(s: Seq<char>)
    ensures
        leading_slashes(s) <= s.len(),
    decreases s.len(),
{
    if s.len() > 0 && s[0] == '/' {
        lemma_leading_slashes_bound(s.drop_first());
    }
}

/// An encoded directory name starts with `-` and holds no `/`: every
/// separator became a `-`.
pub proof fn encoded_path_has_no_separators(path: Seq<char>)
    ensures
        encoded_path(path).len() > 0,
        encoded_path(path)[0] == '-',
        forall|i: int| 0 <= i < encoded_path(path).len() ==> #[trigger] encoded_path(path)[i] != '/',
{
    let lead = leading_slashes(path) as int;
    assert(lead <= path.len()) by {
        lemma_leading_slashes_bound(path);
    }
    let rest = path.skip(lead).map_values(|c: char| if c == '/' { '-' } else { c });
    assert forall|i: int| 0 <= i < encoded_path(path).len() implies #[trigger] encoded_path(path)[i] != '/' by {
        if i > 0 {
            assert(encoded_path(path)[i] == rest[i - 1]);
        }
    }
}

/// The agent CLI uses '-' as the path separator after stripping the leading '/'.
pub fn encode_path(path: &str) -> (r: String)
    ensures
        r@ == encoded_path(path@),
{
    let v = chars_of(path);
    let mut i: usize = 0;
    while i < v.len() && v[i] == '/'
        invariant
            i <= v.len(),
            forall|j: int| 0 <= j < i ==> #[trigger] v@[j] == '/',
        decreases v.len() - i,
    {
        i += 1;
    }
    proof {
        lemma_leading_slashes_is(v@, i as int);
    }
    let start = i;
    let ghost rest = v@.skip(start as int);
    let ghost f = |c: char| if c == '/' { '-' } else { c };
    let mut s = String::new();
    push_char(&mut s, '-');
    while i < v.len()
        invariant
            start <= i <= v.len(),
            rest == v@.skip(start as int),
            f == (|c: char| if c == '/' { '-' } else { c }),
            s@ == seq!['-'] + rest.take(i - start).map_values(f),
        decreases v.len() - i,
    {
        let c = v[i];
        push_char(&mut s, if c == '/' { '-' } else { c });
        proof {
            assert(rest.take(i + 1 - start) =~= rest.take(i - start).push(c));
            assert(rest.take(i + 1 - start).map_values(f) =~= rest.take(i - start).map_values(
                f,
            ).push(f(c)));
        }
        i += 1;
    }
    proof {
        assert(rest.take(v.len() - start) =~= rest);
    }
    s
}

/// `42s ago`, `3m ago`, `5h ago` or `2d ago`.
pub open spec fn ago_text(secs: nat) -> Seq<char> {
    if secs < 60 {
        decimal(secs) + "s ago"@
    } else if secs < 3600 {
        decimal(secs / 60) + "m ago"@
    } else if secs < 86400 {
        decimal(secs / 3600) + "h ago"@
    } else {
        decimal(secs / 86400) + "d ago"@
    }
}

/// Whole seconds from `stamp` to `now` (both in nanoseconds since the
/// Unix epoch); 0 when `stamp` is later.
pub open spec fn whole_secs_between(stamp: u128, now: u128) -> nat {
    if now >= stamp {
        ((now - stamp) / 1_000_000_000) as nat
    } else {
        0
    }
}

/// The suffix after the session count: empty without a timestamp,
/// otherwise ` • last <age>`.
pub open spec fn relative_time_text(stamp: Option<u128>, now: u128) -> Seq<char> {
    match stamp {
        None => seq![],
        Some(t) => " • last "@ + ago_text(whole_secs_between(t, now)),
    }
}

/// The age of the newest session file, as the card shows it.
pub fn relative_time(stamp: Option<u128>, now: u128) -> (r: String)
    ensures
        r@ == relative_time_text(stamp, now),
{
    let t = match stamp {
        None => {
            return String::new();
        },
        Some(t) => t,
    };
    let elapsed: u128 = if now >= t {
        (now - t) / 1_000_000_000
    } else {
        0
    };
    let mut s = String::new();
    append_str(&mut s, " • last ");
    if elapsed < 60 {
        push_decimal(&mut s, elapsed);
        append_str(&mut s, "s ago");
    } else if elapsed < 3600 {
        push_decimal(&mut s, elapsed / 60);
        append_str(&mut s, "m ago");
    } else if elapsed < 86400 {
        push_decimal(&mut s, elapsed / 3600);
        append_str(&mut s, "h ago");
    } else {
        push_decimal(&mut s, elapsed / 86400);
        append_str(&mut s, "d ago");
    }
    proof {
        assert(s@ =~= relative_time_text(stamp, now));
    }
    s
}

/// One entry of an agent CLI project directory.
pub struct SessionFile {
    /// The entry's path.
    pub path: String,
    /// Modification time in nanoseconds since the Unix epoch, when known.
    pub modified: Option<u128>,
}

/// What the card knows about the sessions of a directory.
pub struct SessionsSummary {
    pub count: usize,
    /// Modification time of the newest session file, in nanoseconds since
    /// the Unix epoch.
    pub last_modified: Option<u128>,
    /// Approximate turn count of the most recently modified session.
    pub last_turn_count: Option<usize>,
}

impl SessionsSummary {
    pub fn empty() -> (r: Self)
        ensures
            r.count == 0,
            r.last_modified is None,
            r.last_turn_count is None,
    {
        SessionsSummary { count: 0, last_modified: None, last_turn_count: None }
    }
}

/// A session file is one with the extension `jsonl`.
pub open spec fn is_session(f: SessionFile) -> bool {
    path_extension(f.path@) == Some("jsonl"@)
}

pub open spec fn is_dated_session(f: SessionFile) -> bool {
    is_session(f) && f.modified is Some
}

/// Number of session files among `fs`.
pub open spec fn session_count(fs: Seq<SessionFile>) -> nat
    decreases fs.len(),
{
    if fs.len() == 0 {
        0
    } else {
        session_count(fs.drop_last()) + if is_session(fs.last()) {
            1nat
        } else {
            0nat
        }
    }
}

/// `fs[i]` is the newest dated session; of equally new ones the last.
pub open spec fn is_newest(fs: Seq<SessionFile>, i: int) -> bool {
    &&& 0 <= i < fs.len()
    &&& is_dated_session(fs[i])
    &&& forall|j: int|
        0 <= j < fs.len() && is_dated_session(#[trigger] fs[j]) ==> fs[j].modified.unwrap()
            <= fs[i].modified.unwrap()
    &&& forall|j: int|
        i < j < fs.len() && is_dated_session(#[trigger] fs[j]) ==> fs[j].modified.unwrap()
            < fs[i].modified.unwrap()
}

proof fn lemma_session_count_bound(fs: Seq<SessionFile>)
    ensures
        session_count(fs) <= fs.len(),
    decreases fs.len(),
{
    if fs.len() > 0 {
        lemma_session_count_bound(fs.drop_last());
    }
}

/// Counts the session files and finds the newest one: `(count, index of
/// the newest)`.
pub fn scan_session_files(files: &Vec<SessionFile>) -> (r: (usize, Option<usize>))
    ensures
        r.0 == session_count(files@),
        match r.1 {
            Some(i) => is_newest(files@, i as int),
            None => forall|j: int| 0 <= j < files@.len() ==> !is_dated_session(#[trigger] files@[j]),
        },
{
    let mut count: usize = 0;
    let mut newest: Option<usize> = None;
    let mut i: usize = 0;
    while i < files.len()
        invariant
            i <= files.len(),
            count == session_count(files@.take(i as int)),
            match newest {
                Some(b) => b < i && is_newest(files@.take(i as int), b as int),
                None => forall|j: int| 0 <= j < i ==> !is_dated_session(#[trigger] files@[j]),
            },
        decreases files.len() - i,
    {
        let ghost pre = files@.take(i as int);
        let ghost post = files@.take(i + 1);
        proof {
            assert(post.drop_last() =~= pre);
            assert(post.last() == files@[i as int]);
            lemma_session_count_bound(pre);
            assert forall|j: int| 0 <= j < i implies #[trigger] post[j] == pre[j] by {}
        }
        let is_jsonl = match extension_of(files[i].path.as_str()) {
            Some(ext) => crate::text::str_eq(ext.as_str(), "jsonl"),
            None => false,
        };
        if is_jsonl {
            count += 1;
            match files[i].modified {
                Some(m) => {
                    let bumped = match newest {
                        Some(b) => match files[b].modified {
                            Some(prev) => !(prev > m),
                            None => true,
                        },
                        None => true,
                    };
                    if bumped {
                        newest = Some(i);
                    }
                },
                None => {},
            }
        }
        i += 1;
    }
    proof {
        assert(files@.take(files.len() as int) =~= files@);
    }
    (count, newest)
}

/// Only files up to 4 MiB are read to count turns.
pub open spec fn turn_count_readable(is_file: bool, len: u64) -> bool {
    is_file && len <= 4 * 1024 * 1024
}

/// Whether a session file is small enough to count its turns.
pub fn turn_count_allowed(is_file: bool, len: u64) -> (r: bool)
    ensures
        r == turn_count_readable(is_file, len),
{
    is_file && len <= 4 * 1024 * 1024
}

/// Number of `'\n'` bytes.
pub open spec fn newline_count(bytes: Seq<u8>) -> nat
    decreases bytes.len(),
{
    if bytes.len() == 0 {
        0
    } else {
        newline_count(bytes.drop_last()) + if bytes.last() == 10u8 {
            1nat
        } else {
            0nat
        }
    }
}

/// Approximates the turns of a session transcript by its newlines.
pub fn count_newlines(bytes: &[u8]) -> (r: usize)
    ensures
        r == newline_count(bytes@),
{
    let mut n: usize = 0;
    let mut i: usize = 0;
    while i < bytes.len()
        invariant
            i <= bytes.len(),
            n == newline_count(bytes@.take(i as int)),
            n <= i,
        decreases bytes.len() - i,
    {
        proof {
            assert(bytes@.take(i + 1).drop_last() =~= bytes@.take(i as int));
        }
        if bytes[i] == 10u8 {
            n += 1;
        }
        i += 1;
    }
    proof {
        assert(bytes@.take(bytes.len() as int) =~= bytes@);
    }
    n
}

/// The agent session card: the directory it describes and its sessions.
pub struct ClaudeCodeWidget {
    pub cwd: Option<String>,
    pub summary: SessionsSummary,
}

/// The lines of the agent session card at time `now`.
pub open spec fn session_card_lines(w: ClaudeCodeWidget, now: u128) -> Seq<Seq<char>> {
    if w.cwd is None {
        seq!["(no active terminal)"@]
    } else if w.summary.count == 0 {
        seq!["No active sessions"@]
    } else {
        let first = decimal(w.summary.count as nat) + " session(s)"@ + relative_time_text(
            w.summary.last_modified,
            now,
        );
        match w.summary.last_turn_count {
            Some(t) => if t > 0 {
                seq![first, "Latest: ~"@ + decimal(t as nat) + " turn"@ + plural_s(t as nat)]
            } else {
                seq![first]
            },
            None => seq![first],
        }
    }
}

impl ClaudeCodeWidget {
    /// The focused repository changed: returns whether the card moved to
    /// another directory (its sessions have to be scanned again).
    pub fn handle_focused_repo_changed(&mut self, focused_repo: Option<String>) -> (changed: bool)
        ensures
            changed == (!same_path_text(opt_view(focused_repo), opt_view(old(self).cwd))),
            !changed ==> *final(self) == *old(self),
            changed ==> final(self).cwd == focused_repo && final(self).summary
                == old(self).summary,
    {
        if same_path(&focused_repo, &self.cwd) {
            return false;
        }
        self.cwd = focused_repo;
        true
    }

    /// The text lines of the card at time `now` (nanoseconds since the
    /// Unix epoch).
    pub fn body_lines(&self, now: u128) -> (r: Vec<String>)
        ensures
            line_views(r@) == session_card_lines(*self, now),
    {
        let mut out: Vec<String> = Vec::new();
        if self.cwd.is_none() {
            out.push(line_of("(no active terminal)"));
            proof {
                assert(line_views(out@) =~= session_card_lines(*self, now));
            }
            return out;
        }
        if self.summary.count == 0 {
            out.push(line_of("No active sessions"));
            proof {
                assert(line_views(out@) =~= session_card_lines(*self, now));
            }
            return out;
        }
        let mut first = String::new();
        push_decimal(&mut first, self.summary.count as u128);
        append_str(&mut first, " session(s)");
        let suffix = relative_time(self.summary.last_modified, now);
        append_str(&mut first, suffix.as_str());
        out.push(first);
        match self.summary.last_turn_count {
            Some(t) => {
                if t > 0 {
                    let mut s = String::new();
                    append_str(&mut s, "Latest: ~");
                    push_decimal(&mut s, t as u128);
                    append_str(&mut s, " turn");
                    if t == 1 {
                        append_str(&mut s, "");
                    } else {
                        append_str(&mut s, "s");
                    }
                    out.push(s);
                }
            },
            None => {},
        }
        proof {
            assert(line_views(out@) =~= session_card_lines(*self, now));
        }
        out
    }
}

// ---------------------------------------------------------------------
// Working-directory card
// ---------------------------------------------------------------------

/// The path with the home directory abbreviated to `~`.
pub open spec fn display_path_text(path: Seq<char>, home: Option<Seq<char>>) -> Seq<char> {
    match home {
        Some(h) => match path_strip_prefix(path, h) {
            Some(rest) => if rest.len() == 0 {
                "~"@
            } else {
                "~/"@ + rest
            },
            None => path,
        },
        None => path,
    }
}

/// Renders the path with the user's home directory abbreviated to `~`.
pub fn display_path(path: &str, home: Option<&str>) -> (r: String)
    ensures
        r@ == display_path_text(path@, match home {
            Some(h) => Some(h@),
            None => None,
        }),
{
    match home {
        Some(h) => match strip_path_prefix(path, h) {
            Some(rest) => {
                if rest.as_str().is_empty() {
                    line_of("~")
                } else {
                    let mut s = line_of("~/");
                    append_str(&mut s, rest.as_str());
                    s
                }
            },
            None => line_of(path),
        },
        None => line_of(path),
    }
}

/// Whether `names` holds the name `lit`.
pub open spec fn has_name(names: Seq<String>, lit: Seq<char>) -> bool {
    exists|i: int| 0 <= i < names.len() && (#[trigger] names[i])@ == lit
}

fn contains_name(names: &Vec<String>, lit: &str) -> (r: bool)
    ensures
        r == has_name(names@, lit@),
{
    let mut i: usize = 0;
    while i < names.len()
        invariant
            i <= names.len(),
            forall|j: int| 0 <= j < i ==> (#[trigger] names@[j])@ != lit@,
        decreases names.len() - i,
    {
        if crate::text::str_eq(names[i].as_str(), lit) {
            return true;
        }
        i += 1;
    }
    false
}

/// The project kind that the manifest files in a directory suggest, the
/// most specific manifest first.
pub open spec fn project_type_text(names: Seq<String>) -> Option<Seq<char>> {
    if has_name(names, "Cargo.toml"@) {
        Some("Rust project"@)
    } else if has_name(names, "go.mod"@) {
        Some("Go project"@)
    } else if has_name(names, "pyproject.toml"@) || has_name(names, "setup.py"@) || has_name(
        names,
        "requirements.txt"@,
    ) {
        Some("Python project"@)
    } else if has_name(names, "Gemfile"@) {
        Some("Ruby project"@)
    } else if has_name(names, "pubspec.yaml"@) {
        Some("Dart project"@)
    } else if has_name(names, "mix.exs"@) {
        Some("Elixir project"@)
    } else if has_name(names, "Package.swift"@) {
        Some("Swift project"@)
    } else if has_name(names, "pom.xml"@) || has_name(names, "build.gradle"@) || has_name(
        names,
        "build.gradle.kts"@,
    ) {
        Some("JVM project"@)
    } else if has_name(names, "package.json"@) {
        Some("Node project"@)
    } else if has_name(names, "Dockerfile"@) {
        Some("Docker project"@)
    } else if has_name(names, ".git"@) {
        Some("Git repository"@)
    } else {
        None
    }
}

/// The file names whose presence `project_type_hint` reads, in the order
/// it reads them.
pub open spec fn marker_names() -> Seq<Seq<char>> {
    seq![
        "Cargo.toml"@,
        "go.mod"@,
        "pyproject.toml"@,
        "setup.py"@,
        "requirements.txt"@,
        "Gemfile"@,
        "pubspec.yaml"@,
        "mix.exs"@,
        "Package.swift"@,
        "pom.xml"@,
        "build.gradle"@,
        "build.gradle.kts"@,
        "package.json"@,
        "Dockerfile"@,
        ".git"@,
    ]
}

/// The hint that each of `marker_names` gives, at the same index.
pub open spec fn marker_labels() -> Seq<Seq<char>> {
    seq![
        "Rust project"@,
        "Go project"@,
        "Python project"@,
        "Python project"@,
        "Python project"@,
        "Ruby project"@,
        "Dart project"@,
        "Elixir project"@,
        "Swift project"@,
        "JVM project"@,
        "JVM project"@,
        "JVM project"@,
        "Node project"@,
        "Docker project"@,
        "Git repository"@,
    ]
}

/// The hint is the label of the first marker file, in the order of
/// `marker_names`, that the directory holds: a directory holding
/// `package.json` and none of the markers before it is a Node project,
/// whatever else (`Dockerfile`, `.git`) it holds.
pub proof fn project_hint_follows_first_marker(names: Seq<String>, k: int)
    requires
        0 <= k < marker_names().len(),
        has_name(names, marker_names()[k]),
        forall|j: int| 0 <= j < k ==> !has_name(names, #[trigger] marker_names()[j]),
    ensures
        project_type_text(names) == Some(marker_labels()[k]),
{
    assert(marker_names().len() == 15);
    assert(marker_labels().len() == 15);
    if k == 0 {
            assert(has_name(names, marker_names()[0]));
        } else if k == 1 {
            assert(!has_name(names, marker_names()[0]));
            assert(has_name(names, marker_names()[1]));
        } else if k == 2 {
            assert(!has_name(names, marker_names()[0]));
            assert(!has_name(names, marker_names()[1]));
            assert(has_name(names, marker_names()[2]));
        } else if k == 3 {
            assert(!has_name(names, marker_names()[0]));
            assert(!has_name(names, marker_names()[1]));
            assert(!has_name(names, marker_names()[2]));
            assert(has_name(names, marker_names()[3]));
        } else if k == 4 {
            assert(!has_name(names, marker_names()[0]));
            assert(!has_name(names, marker_names()[1]));
            assert(!has_name(names, marker_names()[2]));
            assert(!has_name(names, marker_names()[3]));
            assert(has_name(names, marker_names()[4]));
        } else if k == 5 {
            assert(!has_name(names, marker_names()[0]));
            assert(!has_name(names, marker_names()[1]));
            assert(!has_name(names, marker_names()[2]));
            assert(!has_name(names, marker_names()[3]));
            assert(!has_name(names, marker_names()[4]));
            assert(has_name(names, marker_names()[5]));
        } else if k == 6 {
            assert(!has_name(names, marker_names()[0]));
            assert(!has_name(names, marker_names()[1]));
            assert(!has_name(names, marker_names()[2]));
            assert(!has_name(names, marker_names()[3]));
            assert(!has_name(names, marker_names()[4]));
            assert(!has_name(names, marker_names()[5]));
            assert(has_name(names, marker_names()[6]));
        } else if k == 7 {
            assert(!has_name(names, marker_names()[0]));
            assert(!has_name(names, marker_names()[1]));
            assert(!has_name(names, marker_names()[2]));
            assert(!has_name(names, marker_names()[3]));
            assert(!has_name(names, marker_names()[4]));
            assert(!has_name(names, marker_names()[5]));
            assert(!has_name(names, marker_names()[6]));
            assert(has_name(names, marker_names()[7]));
        } else if k == 8 {
            assert(!has_name(names, marker_names()[0]));
            assert(!has_name(names, marker_names()[1]));
            assert(!has_name(names, marker_names()[2]));
            assert(!has_name(names, marker_names()[3]));
            assert(!has_name(names, marker_names()[4]));
            assert(!has_name(names, marker_names()[5]));
            assert(!has_name(names, marker_names()[6]));
            assert(!has_name(names, marker_names()[7]));
            assert(has_name(names, marker_names()[8]));
        } else if k == 9 {
            assert(!has_name(names, marker_names()[0]));
            assert(!has_name(names, marker_names()[1]));
            assert(!has_name(names, marker_names()[2]));
            assert(!has_name(names, marker_names()[3]));
            assert(!has_name(names, marker_names()[4]));
            assert(!has_name(names, marker_names()[5]));
            assert(!has_name(names, marker_names()[6]));
            assert(!has_name(names, marker_names()[7]));
            assert(!has_name(names, marker_names()[8]));
            assert(has_name(names, marker_names()[9]));
        } else if k == 10 {
            assert(!has_name(names, marker_names()[0]));
            assert(!has_name(names, marker_names()[1]));
            assert(!has_name(names, marker_names()[2]));
            assert(!has_name(names, marker_names()[3]));
            assert(!has_name(names, marker_names()[4]));
            assert(!has_name(names, marker_names()[5]));
            assert(!has_name(names, marker_names()[6]));
            assert(!has_name(names, marker_names()[7]));
            assert(!has_name(names, marker_names()[8]));
            assert(!has_name(names, marker_names()[9]));
            assert(has_name(names, marker_names()[10]));
        } else if k == 11 {
            assert(!has_name(names, marker_names()[0]));
            assert(!has_name(names, marker_names()[1]));
            assert(!has_name(names, marker_names()[2]));
            assert(!has_name(names, marker_names()[3]));
            assert(!has_name(names, marker_names()[4]));
            assert(!has_name(names, marker_names()[5]));
            assert(!has_name(names, marker_names()[6]));
            assert(!has_name(names, marker_names()[7]));
            assert(!has_name(names, marker_names()[8]));
            assert(!has_name(names, marker_names()[9]));
            assert(!has_name(names, marker_names()[10]));
            assert(has_name(names, marker_names()[11]));
        } else if k == 12 {
            assert(!has_name(names, marker_names()[0]));
            assert(!has_name(names, marker_names()[1]));
            assert(!has_name(names, marker_names()[2]));
            assert(!has_name(names, marker_names()[3]));
            assert(!has_name(names, marker_names()[4]));
            assert(!has_name(names, marker_names()[5]));
            assert(!has_name(names, marker_names()[6]));
            assert(!has_name(names, marker_names()[7]));
            assert(!has_name(names, marker_names()[8]));
            assert(!has_name(names, marker_names()[9]));
            assert(!has_name(names, marker_names()[10]));
            assert(!has_name(names, marker_names()[11]));
            assert(has_name(names, marker_names()[12]));
        } else if k == 13 {
            assert(!has_name(names, marker_names()[0]));
            assert(!has_name(names, marker_names()[1]));
            assert(!has_name(names, marker_names()[2]));
            assert(!has_name(names, marker_names()[3]));
            assert(!has_name(names, marker_names()[4]));
            assert(!has_name(names, marker_names()[5]));
            assert(!has_name(names, marker_names()[6]));
            assert(!has_name(names, marker_names()[7]));
            assert(!has_name(names, marker_names()[8]));
            assert(!has_name(names, marker_names()[9]));
            assert(!has_name(names, marker_names()[10]));
            assert(!has_name(names, marker_names()[11]));
            assert(!has_name(names, marker_names()[12]));
            assert(has_name(names, marker_names()[13]));
        } else if k == 14 {
            assert(!has_name(names, marker_names()[0]));
            assert(!has_name(names, marker_names()[1]));
            assert(!has_name(names, marker_names()[2]));
            assert(!has_name(names, marker_names()[3]));
            assert(!has_name(names, marker_names()[4]));
            assert(!has_name(names, marker_names()[5]));
            assert(!has_name(names, marker_names()[6]));
            assert(!has_name(names, marker_names()[7]));
            assert(!has_name(names, marker_names()[8]));
            assert(!has_name(names, marker_names()[9]));
            assert(!has_name(names, marker_names()[10]));
            assert(!has_name(names, marker_names()[11]));
            assert(!has_name(names, marker_names()[12]));
            assert(!has_name(names, marker_names()[13]));
            assert(has_name(names, marker_names()[14]));
        }
}

/// A directory that holds none of the marker files gets no hint.
pub proof fn no_marker_no_hint(names: Seq<String>)
    requires
        forall|j: int| 0 <= j < marker_names().len() ==> !has_name(names, #[trigger] marker_names()[j]),
    ensures
        project_type_text(names) is None,
{
    assert(!has_name(names, marker_names()[0]));
    assert(!has_name(names, marker_names()[1]));
    assert(!has_name(names, marker_names()[2]));
    assert(!has_name(names, marker_names()[3]));
    assert(!has_name(names, marker_names()[4]));
    assert(!has_name(names, marker_names()[5]));
    assert(!has_name(names, marker_names()[6]));
    assert(!has_name(names, marker_names()[7]));
    assert(!has_name(names, marker_names()[8]));
    assert(!has_name(names, marker_names()[9]));
    assert(!has_name(names, marker_names()[10]));
    assert(!has_name(names, marker_names()[11]));
    assert(!has_name(names, marker_names()[12]));
    assert(!has_name(names, marker_names()[13]));
    assert(!has_name(names, marker_names()[14]));
}

/// The file names whose presence `project_type_hint` reads.
pub fn project_markers() -> (r: Vec<&'static str>)
    ensures
        r@.len() == marker_names().len(),
        forall|i: int| 0 <= i < r@.len() ==> (#[trigger] r@[i])@ == marker_names()[i],
{
    let mut v: Vec<&'static str> = Vec::new();
    v.push("Cargo.toml");
    v.push("go.mod");
    v.push("pyproject.toml");
    v.push("setup.py");
    v.push("requirements.txt");
    v.push("Gemfile");
    v.push("pubspec.yaml");
    v.push("mix.exs");
    v.push("Package.swift");
    v.push("pom.xml");
    v.push("build.gradle");
    v.push("build.gradle.kts");
    v.push("package.json");
    v.push("Dockerfile");
    v.push(".git");
    v
}

/// The project kind that the manifest files present in a directory
/// (`existing`) suggest.
pub fn project_type_hint(existing: &Vec<String>) -> (r: Option<&'static str>)
    ensures
        match project_type_text(existing@) {
            Some(t) => r is Some && r.unwrap()@ == t,
            None => r is None,
        },
{
    if contains_name(existing, "Cargo.toml") {
        Some("Rust project")
    } else if contains_name(existing, "go.mod") {
        Some("Go project")
    } else if contains_name(existing, "pyproject.toml") || contains_name(existing, "setup.py")
        || contains_name(existing, "requirements.txt") {
        Some("Python project")
    } else if contains_name(existing, "Gemfile") {
        Some("Ruby project")
    } else if contains_name(existing, "pubspec.yaml") {
        Some("Dart project")
    } else if contains_name(existing, "mix.exs") {
        Some("Elixir project")
    } else if contains_name(existing, "Package.swift") {
        Some("Swift project")
    } else if contains_name(existing, "pom.xml") || contains_name(existing, "build.gradle")
        || contains_name(existing, "build.gradle.kts") {
        Some("JVM project")
    } else if contains_name(existing, "package.json") {
        Some("Node project")
    } else if contains_name(existing, "Dockerfile") {
        Some("Docker project")
    } else if contains_name(existing, ".git") {
        Some("Git repository")
    } else {
        None
    }
}

/// The working-directory card's display path and project hint.
pub fn derive_cached(cwd: Option<&str>, home: Option<&str>, existing: &Vec<String>) -> (r: (
    String,
    Option<&'static str>,
))
    ensures
        match cwd {
            Some(p) => r.0@ == display_path_text(p@, match home {
                Some(h) => Some(h@),
                None => None,
            }) && match project_type_text(existing@) {
                Some(t) => r.1 is Some && r.1.unwrap()@ == t,
                None => r.1 is None,
            },
            None => r.0@ == "(no active terminal)"@ && r.1 is None,
        },
{
    match cwd {
        Some(p) => (display_path(p, home), project_type_hint(existing)),
        None => (line_of("(no active terminal)"), None),
    }
}

/// The working-directory card: the directory, and its display path and
/// project hint, recomputed only when the directory changes.
pub struct WorkingDirectoryWidget {
    pub cwd: Option<String>,
    pub display: String,
    pub project_type: Option<&'static str>,
}

/// The card's cached lines for `cwd`.
pub open spec fn cached_for(
    w: WorkingDirectoryWidget,
    cwd: Option<String>,
    home: Option<Seq<char>>,
    existing: Seq<String>,
) -> bool {
    &&& w.cwd == cwd
    &&& match cwd {
        Some(p) => {
            &&& w.display@ == display_path_text(p@, home)
            &&& match project_type_text(existing) {
                Some(t) => w.project_type is Some && w.project_type.unwrap()@ == t,
                None => w.project_type is None,
            }
        },
        None => w.display@ == "(no active terminal)"@ && w.project_type is None,
    }
}

pub open spec fn opt_str_view(o: Option<&str>) -> Option<Seq<char>> {
    match o {
        Some(s) => Some(s@),
        None => None,
    }
}

impl WorkingDirectoryWidget {
    /// The card for `cwd`; `home` is the user's home directory and
    /// `existing` the marker files present in `cwd`.
    pub fn new(cwd: Option<String>, home: Option<&str>, existing: &Vec<String>) -> (r: Self)
        ensures
            cached_for(r, cwd, opt_str_view(home), existing@),
    {
        let (display, project_type) = match &cwd {
            Some(p) => derive_cached(Some(p.as_str()), home, existing),
            None => derive_cached(None, home, existing),
        };
        WorkingDirectoryWidget { cwd, display, project_type }
    }

    /// The directory after the focused repository changed: the new focus,
    /// or else any focused repository.
    pub fn focused_cwd(focused_repo: Option<String>, any_focused_repo: Option<String>) -> (r: Option<
        String,
    >)
        ensures
            r == (if focused_repo is Some {
                focused_repo
            } else {
                any_focused_repo
            }),
    {
        match focused_repo {
            Some(r) => Some(r),
            None => any_focused_repo,
        }
    }

    /// The directory to move to when a repository was detected: only one
    /// the user navigated to in a terminal, and only when it differs.
    pub fn detected_cwd(&self, repo_root: Option<String>, from_terminal_navigation: bool) -> (r:
        Option<Option<String>>)
        ensures
            r is Some <==> (from_terminal_navigation && !same_path_text(opt_view(repo_root), opt_view(self.cwd))),
            r is Some ==> r.unwrap() == repo_root,
    {
        if !from_terminal_navigation {
            return None;
        }
        if same_path(&repo_root, &self.cwd) {
            None
        } else {
            Some(repo_root)
        }
    }

    /// Moves the card to `cwd` and recomputes its cached lines.
    pub fn set_cwd(&mut self, cwd: Option<String>, home: Option<&str>, existing: &Vec<String>)
        ensures
            cached_for(*final(self), cwd, opt_str_view(home), existing@),
    {
        *self = WorkingDirectoryWidget::new(cwd, home, existing);
    }

    /// The text lines of the card: the path, then the project hint.
    pub fn body_lines(&self) -> (r: Vec<String>)
        ensures
            line_views(r@) == seq![self.display@] + match self.project_type {
                Some(t) => seq![t@],
                None => seq![],
            },
    {
        let mut out: Vec<String> = Vec::new();
        out.push(self.display.clone());
        match self.project_type {
            Some(t) => out.push(line_of(t)),
            None => {},
        }
        proof {
            assert(line_views(out@) =~= seq![self.display@] + match self.project_type {
                Some(t) => seq![t@],
                None => seq![],
            });
        }
        out
    }
}

} // verus!

//! The state of the git repository, read from the output of
//! `git status --short --branch --porcelain`.
use vstd::prelude::*;

use crate::error::RelatableError;
use crate::pattern::{regex_captures, regex_captures_spec, regex_valid};
use crate::sql::group_or_empty;
use crate::text::{chars_of, owned, parse_nat_spec, parse_usize, push_char, starts_with, views};

verus! {

/// The branch and working-tree state that git reports.
#[derive(Clone, Debug, Default)]
pub struct GitStatus {
    /// The whole output of the status command
    pub raw_text: String,
    /// The local branch
    pub local: String,
    /// The remote branch that the local one tracks, if any
    pub remote: Option<String>,
    /// How many commits the local branch is ahead of the remote one
    pub ahead: usize,
    /// How many commits the local branch is behind the remote one
    pub behind: usize,
    /// Answers the question: "Are there any uncommitted changes to tracked files?"
    pub uncommitted: bool,
}

/// The model of a git status.
pub struct GitStatusView {
    pub raw_text: Seq<char>,
    pub local: Seq<char>,
    pub remote: Option<Seq<char>>,
    pub ahead: nat,
    pub behind: nat,
    pub uncommitted: bool,
}

impl View for GitStatus {
    type V = GitStatusView;

    open spec fn view(&self) -> GitStatusView {
        GitStatusView {
            raw_text: self.raw_text@,
            local: self.local@,
            remote: match self.remote {
                Some(r) => Some(r@),
                None => None,
            },
            ahead: self.ahead as nat,
            behind: self.behind as nat,
            uncommitted: self.uncommitted,
        }
    }
}

/// The pattern of the branch line: the local branch, the remote one after `...`, and
/// how far the local one is ahead of and behind it.
pub const TRACKING_PATTERN: &'static str = r"## (((\S+)\.{3}(\S+)|(\S+)))( \[(ahead (\d+))?(, )?(behind (\d+))?\])?";

/// A line without the carriage return that ends it, if any.
pub open spec fn strip_cr(line: Seq<char>) -> Seq<char> {
    if line.len() > 0 && line.last() == '\r' { line.drop_last() } else { line }
}

/// The lines that end with a line feed in the text, each without its line ending, and
/// what follows the last line feed.
pub open spec fn split_lines(s: Seq<char>) -> (Seq<Seq<char>>, Seq<char>)
    decreases s.len(),
{
    if s.len() == 0 {
        (Seq::empty(), Seq::empty())
    } else {
        let (done, current) = split_lines(s.drop_last());
        if s.last() == '\n' {
            (done.push(strip_cr(current)), Seq::empty())
        } else {
            (done, current.push(s.last()))
        }
    }
}

/// The lines of a text, as `str::lines` gives them: split at `\n` or `\r\n`, the last
/// line ending being optional.
pub open spec fn text_lines(s: Seq<char>) -> Seq<Seq<char>> {
    let (done, current) = split_lines(s);
    if current.len() == 0 { done } else { done.push(current) }
}

/// True when some line after the first does not start with `??`: a tracked file has
/// uncommitted changes.
pub open spec fn has_uncommitted(lines: Seq<Seq<char>>) -> bool {
    exists|i: int| 1 <= i < lines.len() && !"??"@.is_prefix_of(#[trigger] lines[i])
}

/// A count of commits from a capture group: 0 when the group did not take part; `None`
/// when its digits do not make a `usize`.
pub open spec fn count_spec(groups: Seq<Option<Seq<char>>>, i: int) -> Option<nat> {
    if i < groups.len() && groups[i] is Some {
        match parse_nat_spec(groups[i]->0) {
            Some(n) => if n <= usize::MAX { Some(n as nat) } else { None },
            None => None,
        }
    } else {
        Some(0)
    }
}

/// The digits of the first count that is not a `usize`, where the first line matches and
/// names the local branch: the commits ahead, then those behind. `None` where there is no
/// such count.
pub open spec fn bad_count(text: Seq<char>) -> Option<Seq<char>> {
    let lines = text_lines(text);
    if lines.len() == 0 {
        None
    } else {
        match regex_captures_spec(TRACKING_PATTERN@, lines[0]) {
            None => None,
            Some(g) => if !((3 < g.len() && g[3] is Some) || (5 < g.len() && g[5] is Some)) {
                None
            } else if count_spec(g, 8) is None {
                Some(g[8]->0)
            } else if count_spec(g, 11) is None {
                Some(g[11]->0)
            } else {
                None
            },
        }
    }
}

/// What [parse_status] reads from the output of the status command, or `None` when the
/// output cannot be read: it has no line, its first line does not match
/// [TRACKING_PATTERN], or a count is not a `usize`.
pub open spec fn parse_status_spec(text: Seq<char>) -> Option<GitStatusView> {
    let lines = text_lines(text);
    if lines.len() == 0 {
        None
    } else {
        match regex_captures_spec(TRACKING_PATTERN@, lines[0]) {
            None => None,
            Some(g) => {
                let local = if 3 < g.len() && g[3] is Some {
                    Some(g[3]->0)
                } else if 5 < g.len() && g[5] is Some {
                    Some(g[5]->0)
                } else {
                    None
                };
                match (local, count_spec(g, 8), count_spec(g, 11)) {
                    (Some(local), Some(ahead), Some(behind)) => Some(GitStatusView {
                        raw_text: text,
                        local,
                        remote: if 4 < g.len() && g[4] is Some { Some(g[4]->0) } else { None },
                        ahead,
                        behind,
                        uncommitted: has_uncommitted(lines),
                    }),
                    _ => None,
                }
            },
        }
    }
}

/// The status reports uncommitted work exactly when some line after the branch line, any
/// of them, does not start with `??`: untracked files alone leave nothing uncommitted.
pub proof fn lemma_uncommitted_any_line(text: Seq<char>)
    requires
        parse_status_spec(text) is Some,
    ensures
        parse_status_spec(text)->Some_0.uncommitted
            <==> exists|i: int| 1 <= i < text_lines(text).len() && !"??"@.is_prefix_of(#[trigger] text_lines(text)[i]),
{
}

proof fn lemma_split_lines_step(s: Seq<char>, i: int)
    requires
        0 <= i < s.len(),
    ensures
        split_lines(s.take(i + 1)) == ({
            let (done, current) = split_lines(s.take(i));
            if s[i] == '\n' { (done.push(strip_cr(current)), Seq::<char>::empty()) } else { (done, current.push(s[i])) }
        }),
{
    assert(s.take(i + 1).drop_last() =~= s.take(i));
}

/// The lines of a text, as `str::lines` gives them (see [text_lines]).
pub fn lines(text: &str) -> (r: Vec<String>)
    ensures
        views(r@) == text_lines(text@),
{
    let chars = chars_of(text);
    let mut done: Vec<String> = Vec::new();
    let mut current = String::new();
    let mut i: usize = 0;
    while i < chars.len()
        invariant
            i <= chars.len(),
            chars@ == text@,
            (views(done@), current@) == split_lines(text@.take(i as int)),
        decreases chars.len() - i,
    {
        proof { lemma_split_lines_step(text@, i as int); }
        let c = chars[i];
        if c == '\n' {
            let mut line = String::new();
            let cv = chars_of(current.as_str());
            let mut n: usize = cv.len();
            if n > 0 && cv[n - 1] == '\r' {
                n = n - 1;
            }
            let mut k: usize = 0;
            while k < n
                invariant
                    k <= n <= cv.len(),
                    line@ == cv@.take(k as int),
                decreases n - k,
            {
                push_char(&mut line, cv[k]);
                k = k + 1;
                assert(line@ =~= cv@.take(k as int));
            }
            assert(line@ =~= strip_cr(current@));
            proof { crate::text::lemma_views_push(done@, line); }
            done.push(line);
            current = String::new();
        } else {
            push_char(&mut current, c);
        }
        i = i + 1;
    }
    assert(text@.take(i as int) =~= text@);
    if current.unicode_len() > 0 {
        proof { crate::text::lemma_views_push(done@, current); }
        done.push(current);
    }
    done
}

fn count_of(groups: &Vec<Option<String>>, i: usize) -> (r: Option<usize>)
    ensures
        match r {
            Some(n) => count_spec(crate::pattern::opt_views(groups@), i as int) == Some(n as nat),
            None => count_spec(crate::pattern::opt_views(groups@), i as int) is None,
        },
{
    match crate::pattern::group(groups, i) {
        Some(t) => parse_usize(t.as_str()),
        None => Some(0),
    }
}

/// Read the git status from the output of `git status --short --branch --porcelain`:
/// the first line gives the local and remote branches and how far apart they are; a later
/// line that does not start with `??` is a tracked file with uncommitted changes.
pub fn parse_status(status_text: &str) -> (r: Result<GitStatus, RelatableError>)
    ensures
        regex_valid(TRACKING_PATTERN@) ==> match r {
            Ok(s) => parse_status_spec(status_text@) == Some(s@),
            Err(e) => parse_status_spec(status_text@) is None && match bad_count(status_text@) {
                Some(digits) => e is ParseError && e.message_view() == crate::sql::parse_error_spec(digits),
                None => e is ExternalProcessError,
            },
        },
{
    let lines = lines(status_text);
    if lines.len() < 1 {
        return Err(RelatableError::ExternalProcessError(owned("Expected at least one line of output")));
    }
    let branch_status = lines[0].as_str();
    let groups = match regex_captures(TRACKING_PATTERN, branch_status) {
        Ok(Some(g)) => g,
        Ok(None) => {
            let mut m = owned("Invalid status string: ");
            m.append(branch_status);
            return Err(RelatableError::ExternalProcessError(m));
        },
        Err(_) => return Err(RelatableError::ConfigError(owned("invalid pattern for the git branch status"))),
    };
    let ghost g = crate::pattern::opt_views(groups@);
    let local = match crate::pattern::group(&groups, 3) {
        Some(l) => l,
        None => match crate::pattern::group(&groups, 5) {
            Some(l) => l,
            None => return Err(RelatableError::ExternalProcessError(
                owned("Could not determine LOCAL from git status output"))),
        },
    };
    let remote = crate::pattern::group(&groups, 4);
    let ahead = match count_of(&groups, 8) {
        Some(n) => n,
        None => {
            let digits = crate::sql::group_text(&groups, 8);
            return Err(RelatableError::ParseError(crate::sql::parse_error_text(digits.as_str())));
        },
    };
    let behind = match count_of(&groups, 11) {
        Some(n) => n,
        None => {
            let digits = crate::sql::group_text(&groups, 11);
            return Err(RelatableError::ParseError(crate::sql::parse_error_text(digits.as_str())));
        },
    };
    let mut uncommitted = false;
    let mut i: usize = 1;
    while i < lines.len()
        invariant
            1 <= i <= lines.len(),
            uncommitted == exists|k: int| 1 <= k < i && !"??"@.is_prefix_of(#[trigger] views(lines@)[k]),
        decreases lines.len() - i,
    {
        assert(views(lines@)[i as int] == lines@[i as int]@);
        if !starts_with(lines[i].as_str(), "??") {
            uncommitted = true;
        }
        i = i + 1;
    }
    let status = GitStatus {
        raw_text: owned(status_text),
        local,
        remote,
        ahead,
        behind,
        uncommitted,
    };
    assert(status@.remote == (if 4 < g.len() && g[4] is Some { Some(g[4]->0) } else { None::<Seq<char>> }));
    Ok(status)
}

} // verus!

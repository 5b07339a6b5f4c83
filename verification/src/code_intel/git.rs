//! Git history records and the Conventional Commits grammar.

use vstd::prelude::*;
use crate::text::{
    chars_of, find_char_from, first_line, first_line_of, index_of_from, is_white_space,
    lemma_index_of_from_bounds, skip_blanks, skip_blanks_from, string_from_chars,
};

verus! {

/// Parsed commit information.
#[derive(Debug, Clone)]
pub struct CommitInfo {
    pub hash: String,
    pub message: String,
    pub author: String,
    pub committed_at: String,
    pub conventional: Option<ConventionalCommit>,
}

/// A commit as read from a repository: its id in hex, its whole message, the
/// author's name and the commit time in seconds since the Unix epoch.
pub struct RawCommit {
    pub hash: String,
    pub message: String,
    pub author: String,
    pub seconds: i64,
}

/// The RFC 3339 text (`YYYY-MM-DDTHH:MM:SS+00:00`) that chrono gives for the UTC
/// instant `secs` seconds after the Unix epoch, or `None` when chrono cannot
/// represent that instant.
pub uninterp spec fn rfc3339_of_unix_seconds(secs: i64) -> Option<Seq<char>>;

/// Calls `chrono::DateTime::from_timestamp(secs, 0)` and, on success,
/// `DateTime::to_rfc3339`. The contract only names the result
/// ([`rfc3339_of_unix_seconds`]); the calendar arithmetic is chrono's.
#[verifier::external_body]
fn utc_rfc3339(secs: i64) -> (res: Option<String>)
    ensures
        res.deep_view() == rfc3339_of_unix_seconds(secs),
{
    match chrono::DateTime::from_timestamp(secs, 0) {
        Some(dt) => Some(dt.to_rfc3339()),
        None => None,
    }
}

/// The commit time as RFC 3339 text; empty when it cannot be represented.
pub open spec fn committed_at_text(secs: i64) -> Seq<char> {
    match rfc3339_of_unix_seconds(secs) {
        Some(t) => t,
        None => Seq::empty(),
    }
}

/// The record kept of a raw commit: its first message line, the components
/// of that line under the Conventional Commits grammar, and its time as text.
pub open spec fn commit_info_matches(info: CommitInfo, raw: RawCommit) -> bool {
    &&& info.hash@ == raw.hash@
    &&& info.message@ == first_line(raw.message@)
    &&& info.author@ == raw.author@
    &&& info.committed_at@ == committed_at_text(raw.seconds)
    &&& match info.conventional {
        Some(c) => conventional_commit_of(first_line(raw.message@)) == Some(c@),
        None => conventional_commit_of(first_line(raw.message@)) is None,
    }
}

/// Turn a commit read from the repository into the record kept of it.
pub fn commit_info(raw: RawCommit) -> (res: CommitInfo)
    ensures
        commit_info_matches(res, raw),
{
    let message = first_line_of(raw.message.as_str());
    let conventional = parse_conventional_commit(message.as_str());
    let committed_at = match utc_rfc3339(raw.seconds) {
        Some(t) => t,
        None => String::new(),
    };
    CommitInfo { hash: raw.hash, message, author: raw.author, committed_at, conventional }
}

/// The history kept of the commits walked from HEAD: the first `limit` of them,
/// each turned into its record, in walk order.
pub fn commits_from_walk(raws: Vec<RawCommit>, limit: usize) -> (res: Vec<CommitInfo>)
    ensures
        res.len() == if raws.len() < limit {
            raws.len()
        } else {
            limit
        },
        forall|i: int| 0 <= i < res.len() ==> commit_info_matches(#[trigger] res[i], raws[i]),
{
    let mut kept = raws;
    kept.truncate(limit);
    let ghost all = kept@;
    let mut res: Vec<CommitInfo> = Vec::new();
    for raw in it: kept.into_iter()
        invariant
            it.seq() == all,
            res.len() == it.index(),
            forall|i: int| 0 <= i < res.len() ==> commit_info_matches(#[trigger] res[i], all[i]),
    {
        res.push(commit_info(raw));
    }
    res
}

/// Conventional commit components.
#[derive(Debug, Clone)]
pub struct ConventionalCommit {
    pub commit_type: String,
    pub scope: Option<String>,
    pub breaking: bool,
    pub description: String,
}

/// The components of a conventional commit header, as character sequences.
pub struct ConventionalCommitView {
    pub commit_type: Seq<char>,
    pub scope: Option<Seq<char>>,
    pub breaking: bool,
    pub description: Seq<char>,
}

impl View for ConventionalCommit {
    type V = ConventionalCommitView;

    open spec fn view(&self) -> ConventionalCommitView {
        ConventionalCommitView {
            commit_type: self.commit_type@,
            scope: self.scope.deep_view(),
            breaking: self.breaking,
            description: self.description@,
        }
    }
}

/// `p` is a prefix of `s`.
pub open spec fn starts_with(s: Seq<char>, p: Seq<char>) -> bool {
    p.len() <= s.len() && s.take(p.len() as int) == p
}

/// Length of the commit type that `s` starts with (one of `feat`, `fix`,
/// `refactor`, `docs`, `test`, `chore`, `perf`, `ci`, `build`, `style`), or 0.
pub open spec fn commit_type_len(s: Seq<char>) -> int {
    if starts_with(s, seq!['f', 'e', 'a', 't']) {
        4
    } else if starts_with(s, seq!['f', 'i', 'x']) {
        3
    } else if starts_with(s, seq!['r', 'e', 'f', 'a', 'c', 't', 'o', 'r']) {
        8
    } else if starts_with(s, seq!['d', 'o', 'c', 's']) {
        4
    } else if starts_with(s, seq!['t', 'e', 's', 't']) {
        4
    } else if starts_with(s, seq!['c', 'h', 'o', 'r', 'e']) {
        5
    } else if starts_with(s, seq!['p', 'e', 'r', 'f']) {
        4
    } else if starts_with(s, seq!['c', 'i']) {
        2
    } else if starts_with(s, seq!['b', 'u', 'i', 'l', 'd']) {
        5
    } else if starts_with(s, seq!['s', 't', 'y', 'l', 'e']) {
        5
    } else {
        0
    }
}

/// Largest `k` with `from <= k < to` and `s[k] != '\n'`, or `from - 1` when there is none.
pub open spec fn last_non_newline_before(s: Seq<char>, from: int, to: int) -> int
    decreases to - from,
{
    if to <= from {
        from - 1
    } else if s[to - 1] != '\n' {
        to - 1
    } else {
        last_non_newline_before(s, from, to - 1)
    }
}

/// What the Conventional Commits pattern
/// `^(feat|fix|refactor|docs|test|chore|perf|ci|build|style)(\(([^)]+)\))?(!)?\s*:\s*(.+)`
/// captures in `s` (with leftmost-first matching, `\s` the Unicode blanks and
/// `.` any character but `\n`): the type, the optional non-empty scope between
/// the first `(` and the first `)` after it, whether `!` follows, and the description.
/// The description starts at the first non-blank character after the colon and
/// runs to the end of that line; when only blanks follow the colon, it is the last
/// of them that is not a `\n`.
pub open spec fn conventional_commit_of(s: Seq<char>) -> Option<ConventionalCommitView> {
    let n = commit_type_len(s);
    let has_scope = n < s.len() && s[n] == '(';
    let close = index_of_from(s, ')', n + 1);
    let after_scope = if has_scope {
        close + 1
    } else {
        n
    };
    let breaking = after_scope < s.len() && s[after_scope] == '!';
    let colon = skip_blanks_from(
        s,
        if breaking {
            after_scope + 1
        } else {
            after_scope
        },
    );
    let start = skip_blanks_from(s, colon + 1);
    let last = last_non_newline_before(s, colon + 1, s.len() as int);
    if n == 0 || (has_scope && !(close < s.len() && close > n + 1)) || !(colon < s.len() && s[colon]
        == ':') || (start >= s.len() && last <= colon) {
        None
    } else {
        Some(
            ConventionalCommitView {
                commit_type: s.take(n),
                scope: if has_scope {
                    Some(s.subrange(n + 1, close))
                } else {
                    None
                },
                breaking,
                description: if start < s.len() {
                    s.subrange(start, index_of_from(s, '\n', start))
                } else {
                    s.subrange(last, last + 1)
                },
            },
        )
    }
}

/// The commit types that the grammar knows.
pub open spec fn is_commit_type(t: Seq<char>) -> bool {
    ||| t == seq!['f', 'e', 'a', 't']
    ||| t == seq!['f', 'i', 'x']
    ||| t == seq!['r', 'e', 'f', 'a', 'c', 't', 'o', 'r']
    ||| t == seq!['d', 'o', 'c', 's']
    ||| t == seq!['t', 'e', 's', 't']
    ||| t == seq!['c', 'h', 'o', 'r', 'e']
    ||| t == seq!['p', 'e', 'r', 'f']
    ||| t == seq!['c', 'i']
    ||| t == seq!['b', 'u', 'i', 'l', 'd']
    ||| t == seq!['s', 't', 'y', 'l', 'e']
}

/// The header written from its parts: `type(scope)!: description`, with the
/// scope and the `!` only when given.
pub open spec fn conventional_header(c: ConventionalCommitView) -> Seq<char> {
    c.commit_type + match c.scope {
        Some(sc) => seq!['('] + sc + seq![')'],
        None => Seq::empty(),
    } + if c.breaking {
        seq!['!']
    } else {
        Seq::empty()
    } + seq![':', ' '] + c.description
}

/// A text that starts with a known commit type and has at least one more
/// character has that type's length as its commit type length.
proof fn lemma_commit_type_len_of_header(t: Seq<char>, rest: Seq<char>)
    requires
        is_commit_type(t),
        rest.len() > 0,
    ensures
        commit_type_len(t + rest) == t.len(),
{
    let s = t + rest;
    assert(s.take(t.len() as int) =~= t);
    assert forall|p: Seq<char>| p.len() > 0 && s[0] != p[0] implies !starts_with(s, p) by {
        if starts_with(s, p) {
            assert(s.take(p.len() as int)[0] == s[0]);
        }
    }
    assert forall|p: Seq<char>| p.len() > 1 && s[1] != p[1] implies !starts_with(s, p) by {
        if starts_with(s, p) {
            assert(s.take(p.len() as int)[1] == s[1]);
        }
    }
    assert(s[0] == t[0] && s[1] == t[1]);
}

/// Where the parts of a written header stand.
proof fn lemma_header_layout(c: ConventionalCommitView)
    ensures
        ({
            let s = conventional_header(c);
            let n = c.commit_type.len() as int;
            let after_scope = n + match c.scope {
                Some(sc) => sc.len() + 2,
                None => 0,
            };
            let colon = after_scope + if c.breaking {
                1int
            } else {
                0int
            };
            &&& s.len() == colon + 2 + c.description.len()
            &&& s.take(n) == c.commit_type
            &&& s.subrange(n, s.len() as int).len() > 0
            &&& c.commit_type + s.subrange(n, s.len() as int) == s
            &&& (c.scope matches Some(sc) ==> {
                &&& s[n] == '('
                &&& s[n + 1 + sc.len()] == ')'
                &&& s.subrange(n + 1, n + 1 + sc.len()) == sc
            })
            &&& s[after_scope] == if c.breaking {
                '!'
            } else {
                ':'
            }
            &&& s[colon] == ':'
            &&& s[colon + 1] == ' '
            &&& s.subrange(colon + 2, s.len() as int) == c.description
        }),
{
    let s = conventional_header(c);
    let t = c.commit_type;
    let n = t.len() as int;
    let scope_part: Seq<char> = match c.scope {
        Some(sc) => seq!['('] + sc + seq![')'],
        None => Seq::empty(),
    };
    let bang: Seq<char> = if c.breaking {
        seq!['!']
    } else {
        Seq::empty()
    };
    let tail = seq![':', ' '] + c.description;
    assert(s == t + scope_part + bang + tail);
    let after_scope = n + scope_part.len();
    let colon = after_scope + bang.len();
    assert(s.take(n) =~= t);
    assert(t + s.subrange(n, s.len() as int) =~= s);
    assert(s.subrange(colon, s.len() as int) =~= tail);
    assert(s.subrange(colon + 2, s.len() as int) =~= c.description);
    assert(s.subrange(after_scope, s.len() as int) =~= bang + tail);
    assert(s.subrange(n, s.len() as int) =~= scope_part + bang + tail);
    match c.scope {
        Some(sc) => {
            assert(s.subrange(n + 1, n + 1 + sc.len()) =~= sc);
        },
        None => {},
    }
}

/// Parsing gives back the parts of every header written from them: a known
/// commit type, a non-empty scope without `)`, and a one-line description that
/// starts with a non-blank character.
pub proof fn lemma_conventional_header_round_trip(c: ConventionalCommitView)
    requires
        is_commit_type(c.commit_type),
        c.scope matches Some(sc) ==> sc.len() > 0 && !sc.contains(')'),
        c.description.len() > 0,
        !is_white_space(c.description[0]),
        !c.description.contains('\n'),
    ensures
        conventional_commit_of(conventional_header(c)) == Some(c),
{
    let s = conventional_header(c);
    let n = c.commit_type.len() as int;
    lemma_header_layout(c);
    lemma_commit_type_len_of_header(c.commit_type, s.subrange(n, s.len() as int));
    let after_scope = n + match c.scope {
        Some(sc) => sc.len() + 2,
        None => 0,
    };
    let colon = after_scope + if c.breaking {
        1int
    } else {
        0int
    };
    let start = colon + 2;
    match c.scope {
        Some(sc) => {
            let close = n + 1 + sc.len();
            assert forall|k: int| n + 1 <= k < close implies s[k] != ')' by {
                assert(s.subrange(n + 1, close)[k - n - 1] == s[k]);
                if s[k] == ')' {
                    assert(sc[k - n - 1] == ')');
                }
            }
            lemma_index_of_from_bounds(s, ')', n + 1);
        },
        None => {},
    }
    assert(s[start] == c.description[0]) by {
        assert(s.subrange(start, s.len() as int)[0] == s[start]);
    }
    assert(skip_blanks_from(s, colon) == colon);
    assert(skip_blanks_from(s, start) == start);
    assert(skip_blanks_from(s, colon + 1) == start);
    lemma_index_of_from_bounds(s, '\n', start);
    if index_of_from(s, '\n', start) < s.len() {
        let j = index_of_from(s, '\n', start);
        assert(s.subrange(start, s.len() as int)[j - start] == s[j]);
        assert(c.description[j - start] == '\n');
    }
    assert(index_of_from(s, '\n', start) == s.len());
}

fn has_prefix(v: &Vec<char>, p: Vec<char>) -> (res: bool)
    ensures
        res == starts_with(v@, p@),
{
    if p.len() > v.len() {
        return false;
    }
    let mut i: usize = 0;
    while i < p.len()
        invariant
            p.len() <= v.len(),
            i <= p.len(),
            forall|k: int| 0 <= k < i ==> v@[k] == p@[k],
        decreases p.len() - i,
    {
        if v[i] != p[i] {
            assert(v@.take(p.len() as int)[i as int] != p@[i as int]);
            return false;
        }
        i += 1;
    }
    assert(v@.take(p.len() as int) =~= p@);
    true
}

fn commit_type_length(v: &Vec<char>) -> (res: usize)
    ensures
        res == commit_type_len(v@),
{
    if has_prefix(v, vec!['f', 'e', 'a', 't']) {
        4
    } else if has_prefix(v, vec!['f', 'i', 'x']) {
        3
    } else if has_prefix(v, vec!['r', 'e', 'f', 'a', 'c', 't', 'o', 'r']) {
        8
    } else if has_prefix(v, vec!['d', 'o', 'c', 's']) {
        4
    } else if has_prefix(v, vec!['t', 'e', 's', 't']) {
        4
    } else if has_prefix(v, vec!['c', 'h', 'o', 'r', 'e']) {
        5
    } else if has_prefix(v, vec!['p', 'e', 'r', 'f']) {
        4
    } else if has_prefix(v, vec!['c', 'i']) {
        2
    } else if has_prefix(v, vec!['b', 'u', 'i', 'l', 'd']) {
        5
    } else if has_prefix(v, vec!['s', 't', 'y', 'l', 'e']) {
        5
    } else {
        0
    }
}

fn last_non_newline(v: &Vec<char>, from: usize) -> (res: Option<usize>)
    requires
        from <= v.len(),
    ensures
        match res {
            Some(k) => from <= k < v.len() && k as int == last_non_newline_before(
                v@,
                from as int,
                v.len() as int,
            ),
            None => last_non_newline_before(v@, from as int, v.len() as int) == from - 1,
        },
{
    let mut to = v.len();
    while to > from
        invariant
            from <= to <= v.len(),
            last_non_newline_before(v@, from as int, to as int) == last_non_newline_before(
                v@,
                from as int,
                v.len() as int,
            ),
        decreases to,
    {
        if v[to - 1] != '\n' {
            return Some(to - 1);
        }
        to -= 1;
    }
    None
}

/// Parse a commit header by the Conventional Commits grammar
/// (see [`conventional_commit_of`]); `None` when it does not follow it.
pub fn parse_conventional_commit(message: &str) -> (res: Option<ConventionalCommit>)
    ensures
        match res {
            Some(c) => conventional_commit_of(message@) == Some(c@),
            None => conventional_commit_of(message@) is None,
        },
{
    let v = chars_of(message);
    let len = v.len();
    let n = commit_type_length(&v);
    if n == 0 {
        return None;
    }
    let has_scope = n < len && v[n] == '(';
    let mut scope: Option<String> = None;
    let mut after_scope = n;
    if has_scope {
        let close = find_char_from(&v, ')', n + 1);
        if !(close < len && close > n + 1) {
            return None;
        }
        scope = Some(string_from_chars(&v, n + 1, close));
        after_scope = close + 1;
    }
    let breaking = after_scope < len && v[after_scope] == '!';
    let colon = skip_blanks(&v, if breaking { after_scope + 1 } else { after_scope });
    if !(colon < len && v[colon] == ':') {
        return None;
    }
    let start = skip_blanks(&v, colon + 1);
    let description = if start < len {
        let end = find_char_from(&v, '\n', start);
        string_from_chars(&v, start, end)
    } else {
        match last_non_newline(&v, colon + 1) {
            Some(k) => string_from_chars(&v, k, k + 1),
            None => {
                return None;
            },
        }
    };
    let commit_type = string_from_chars(&v, 0, n);
    proof {
        assert(v@.subrange(0, n as int) =~= v@.take(n as int));
    }
    Some(ConventionalCommit { commit_type, scope, breaking, description })
}

} // verus!

//! Rules of the local memory store that do not touch the database itself.

use vstd::prelude::*;
use crate::text::{
    text_is,
    char_is_white_space, has_no_white_space, is_white_space, lemma_no_words_iff_blank,
    lemma_word_scan_append_word, lemma_word_scan_words_are_blank_free, lemma_words_are_blank_free,
    word_scan, words,
};

verus! {

/// Characters of a word with every double quote removed.
pub open spec fn without_quotes(t: Seq<char>) -> Seq<char>
    decreases t.len(),
{
    if t.len() == 0 {
        Seq::empty()
    } else {
        let r = without_quotes(t.drop_last());
        if t.last() == '"' {
            r
        } else {
            r.push(t.last())
        }
    }
}

/// A word turned into an FTS5 string literal: quotes stripped, then wrapped in quotes.
pub open spec fn quoted_word(t: Seq<char>) -> Seq<char> {
    seq!['"'] + without_quotes(t) + seq!['"']
}

/// The quoted words joined by single spaces.
pub open spec fn join_quoted(ts: Seq<Seq<char>>) -> Seq<char>
    decreases ts.len(),
{
    if ts.len() == 0 {
        Seq::empty()
    } else if ts.len() == 1 {
        quoted_word(ts[0])
    } else {
        join_quoted(ts.drop_last()) + seq![' '] + quoted_word(ts.last())
    }
}

/// The FTS5 MATCH expression built from a user query: each whitespace-separated
/// word becomes a quoted literal, so that no word is read as an operator.
pub open spec fn sanitized_query(q: Seq<char>) -> Seq<char> {
    join_quoted(words(q))
}

proof fn lemma_join_push(ts: Seq<Seq<char>>, t: Seq<char>)
    ensures
        join_quoted(ts.push(t)) == (if ts.len() == 0 {
            quoted_word(t)
        } else {
            join_quoted(ts) + seq![' '] + quoted_word(t)
        }),
{
    assert(ts.push(t).drop_last() =~= ts);
}

proof fn lemma_without_quotes_concat(a: Seq<char>, b: Seq<char>)
    ensures
        without_quotes(a + b) == without_quotes(a) + without_quotes(b),
    decreases b.len(),
{
    if b.len() == 0 {
        assert(a + b =~= a);
        assert(without_quotes(a) + without_quotes(b) =~= without_quotes(a));
    } else {
        lemma_without_quotes_concat(a, b.drop_last());
        assert((a + b).drop_last() =~= a + b.drop_last());
        if b.last() != '"' {
            assert(without_quotes(a) + without_quotes(b.drop_last()).push(b.last()) =~= (
            without_quotes(a) + without_quotes(b.drop_last())).push(b.last()));
        }
    }
}

/// The characters left after removing quotes are quotes-free and come from `t`.
proof fn lemma_without_quotes_chars(t: Seq<char>)
    ensures
        forall|i: int|
            0 <= i < without_quotes(t).len() ==> #[trigger] without_quotes(t)[i] != '"' && t.contains(
                without_quotes(t)[i],
            ),
    decreases t.len(),
{
    if t.len() > 0 {
        let p = t.drop_last();
        lemma_without_quotes_chars(p);
        assert forall|i: int| 0 <= i < without_quotes(t).len() implies #[trigger] without_quotes(
            t,
        )[i] != '"' && t.contains(without_quotes(t)[i]) by {
            if i < without_quotes(p).len() {
                assert(without_quotes(t)[i] == without_quotes(p)[i]);
                let k = choose|k: int| 0 <= k < p.len() && p[k] == without_quotes(p)[i];
                assert(t[k] == p[k]);
            } else {
                assert(t[t.len() - 1] == t.last());
            }
        }
    }
}

proof fn lemma_without_quotes_of_quote_free(t: Seq<char>)
    requires
        forall|i: int| 0 <= i < t.len() ==> t[i] != '"',
    ensures
        without_quotes(t) == t,
    decreases t.len(),
{
    if t.len() > 0 {
        lemma_without_quotes_of_quote_free(t.drop_last());
        assert(t.drop_last().push(t.last()) =~= t);
    }
}

/// Quoting a word twice gives the same literal as quoting it once.
proof fn lemma_quoted_word_stable(t: Seq<char>)
    ensures
        without_quotes(quoted_word(t)) == without_quotes(t),
        quoted_word(quoted_word(t)) == quoted_word(t),
{
    let w = without_quotes(t);
    lemma_without_quotes_chars(t);
    lemma_without_quotes_of_quote_free(w);
    lemma_without_quotes_concat(seq!['"'] + w, seq!['"']);
    lemma_without_quotes_concat(seq!['"'], w);
    assert(without_quotes(seq!['"']) =~= Seq::<char>::empty()) by {
        let one = seq!['"'];
        assert(one.drop_last() =~= Seq::<char>::empty());
        assert(one.last() == '"');
        assert(without_quotes(one.drop_last()) == Seq::<char>::empty());
    }
    assert(Seq::<char>::empty() + w + Seq::<char>::empty() =~= w);
}

/// A quoted literal of a blank-free word is itself a blank-free, non-empty word.
proof fn lemma_quoted_word_is_word(t: Seq<char>)
    requires
        has_no_white_space(t),
    ensures
        has_no_white_space(quoted_word(t)),
        quoted_word(t).len() >= 2,
{
    lemma_without_quotes_chars(t);
    let q = quoted_word(t);
    let w = without_quotes(t);
    assert forall|i: int| 0 <= i < q.len() implies !is_white_space(#[trigger] q[i]) by {
        if 0 < i < q.len() - 1 {
            assert(q[i] == w[i - 1]);
            let k = choose|k: int| 0 <= k < t.len() && t[k] == w[i - 1];
        }
    }
}

/// Scanning the joined literals of blank-free words finds those literals again.
proof fn lemma_word_scan_join(ts: Seq<Seq<char>>)
    requires
        ts.len() > 0,
        forall|i: int| 0 <= i < ts.len() ==> has_no_white_space(#[trigger] ts[i]),
    ensures
        word_scan(join_quoted(ts)) == (
            ts.drop_last().map_values(|t: Seq<char>| quoted_word(t)),
            quoted_word(ts.last()),
        ),
    decreases ts.len(),
{
    let last = ts.last();
    assert(has_no_white_space(ts[ts.len() - 1]));
    lemma_quoted_word_is_word(last);
    if ts.len() == 1 {
        lemma_word_scan_append_word(Seq::empty(), quoted_word(last));
        assert(Seq::<char>::empty() + quoted_word(last) =~= quoted_word(last));
        assert(Seq::<char>::empty() + quoted_word(last) =~= quoted_word(last));
        assert(ts.drop_last().map_values(|t: Seq<char>| quoted_word(t)) =~= Seq::empty());
    } else {
        let init = ts.drop_last();
        assert forall|i: int| 0 <= i < init.len() implies has_no_white_space(#[trigger] init[i]) by {
            assert(init[i] == ts[i]);
        }
        lemma_word_scan_join(init);
        let j = join_quoted(init);
        let js = j + seq![' '];
        assert(js.drop_last() =~= j);
        assert(is_white_space(js.last()));
        lemma_word_scan_append_word(js, quoted_word(last));
        assert(j + seq![' '] + quoted_word(last) == js + quoted_word(last));
        assert(Seq::<char>::empty() + quoted_word(last) =~= quoted_word(last));
        assert(init.drop_last().map_values(|t: Seq<char>| quoted_word(t)).push(
            quoted_word(init.last()),
        ) =~= ts.drop_last().map_values(|t: Seq<char>| quoted_word(t)));
    }
}

proof fn lemma_join_quoted_requoted(ts: Seq<Seq<char>>)
    ensures
        join_quoted(ts.map_values(|t: Seq<char>| quoted_word(t))) == join_quoted(ts),
    decreases ts.len(),
{
    let qs = ts.map_values(|t: Seq<char>| quoted_word(t));
    if ts.len() > 0 {
        lemma_quoted_word_stable(ts.last());
        if ts.len() > 1 {
            lemma_join_quoted_requoted(ts.drop_last());
            assert(qs.drop_last() =~= ts.drop_last().map_values(|t: Seq<char>| quoted_word(t)));
        } else {
            assert(qs[0] == quoted_word(ts[0]));
        }
    }
}

/// An FTS5 string literal: text between double quotes that holds no quote.
pub open spec fn is_string_literal(w: Seq<char>) -> bool {
    &&& w.len() >= 2
    &&& w[0] == '"'
    &&& w.last() == '"'
    &&& forall|k: int| 0 < k < w.len() - 1 ==> w[k] != '"'
}

/// A quoted word is a string literal.
proof fn lemma_quoted_word_is_literal(t: Seq<char>)
    ensures
        is_string_literal(quoted_word(t)),
{
    lemma_without_quotes_chars(t);
    let w = without_quotes(t);
    let q = quoted_word(t);
    assert forall|k: int| 0 < k < q.len() - 1 implies q[k] != '"' by {
        assert(q[k] == w[k - 1]);
    }
}

/// The sanitiser's promise: the words of the MATCH expression are the words of
/// the query, in order, each turned into a string literal, so that none of them
/// can be read as an FTS5 operator (AND, OR, NOT, NEAR, ...).
pub proof fn lemma_sanitized_words_are_literals(q: Seq<char>)
    ensures
        words(sanitized_query(q)) == words(q).map_values(|t: Seq<char>| quoted_word(t)),
        forall|i: int|
            0 <= i < words(sanitized_query(q)).len() ==> is_string_literal(
                #[trigger] words(sanitized_query(q))[i],
            ),
{
    let ts = words(q);
    lemma_words_are_blank_free(q);
    if ts.len() == 0 {
        assert(word_scan(Seq::<char>::empty()) == (Seq::<Seq<char>>::empty(), Seq::<char>::empty()));
        assert(ts.map_values(|t: Seq<char>| quoted_word(t)) =~= Seq::<Seq<char>>::empty());
    } else {
        lemma_word_scan_join(ts);
        assert(has_no_white_space(ts[ts.len() - 1]));
        lemma_quoted_word_is_word(ts.last());
        assert(words(join_quoted(ts)) =~= ts.map_values(|t: Seq<char>| quoted_word(t)));
    }
    let ws = words(sanitized_query(q));
    assert forall|i: int| 0 <= i < ws.len() implies is_string_literal(#[trigger] ws[i]) by {
        lemma_quoted_word_is_literal(ts[i]);
    }
}

/// Sanitising a query twice gives the same MATCH expression as sanitising it
/// once: every word of the output is already a quoted literal.
pub proof fn lemma_sanitize_idempotent(q: Seq<char>)
    ensures
        sanitized_query(sanitized_query(q)) == sanitized_query(q),
{
    let ts = words(q);
    lemma_words_are_blank_free(q);
    if ts.len() == 0 {
        assert(word_scan(Seq::<char>::empty()) == (Seq::<Seq<char>>::empty(), Seq::<char>::empty()));
    } else {
        lemma_word_scan_join(ts);
        let last = ts.last();
        assert(has_no_white_space(ts[ts.len() - 1]));
        lemma_quoted_word_is_word(last);
        assert(words(join_quoted(ts)) =~= ts.map_values(|t: Seq<char>| quoted_word(t)));
        lemma_join_quoted_requoted(ts);
    }
}

/// The sanitised query is empty exactly when the query holds nothing but blanks.
pub proof fn lemma_sanitize_empty_iff_blank(q: Seq<char>)
    ensures
        (sanitized_query(q).len() == 0) <==> (forall|i: int| 0 <= i < q.len() ==> is_white_space(
            #[trigger] q[i],
        )),
{
    lemma_no_words_iff_blank(q);
    let ts = words(q);
    if ts.len() > 0 {
        lemma_join_push(ts.drop_last(), ts.last());
        assert(ts.drop_last().push(ts.last()) =~= ts);
    }
}

/// Sanitize user input for FTS5 MATCH syntax: wraps each whitespace-separated
/// token in double quotes (after removing the quotes it held), so that FTS5
/// operators (AND, OR, NOT, NEAR, ...) are read as plain words.
pub fn sanitize_fts_query(query: &str) -> (res: String)
    ensures
        res@ == sanitized_query(query@),
{
    let mut out = String::new();
    let mut in_word = false;
    let mut any_word = false;
    for c in it: query.chars()
        invariant
            it.seq() == query@,
            ({
                let (done, cur) = word_scan(query@.take(it.index() as int));
                &&& in_word == (cur.len() > 0)
                &&& any_word == (done.len() > 0 || cur.len() > 0)
                &&& out@ == (if in_word {
                    join_quoted(done.push(cur)).drop_last()
                } else {
                    join_quoted(done)
                })
            }),
    {
        let ghost prefix = query@.take(it.index() as int);
        let ghost (done, cur) = word_scan(prefix);
        proof {
            assert(it.index() < query@.len());
            assert(c == query@[it.index() as int]);
            assert(query@.take(it.index() + 1).drop_last() =~= prefix);
            lemma_join_push(done, cur);
        }
        if char_is_white_space(c) {
            if in_word {
                out.push('"');
                in_word = false;
                assert(out@ =~= join_quoted(done.push(cur)));
            }
        } else {
            if !in_word {
                if any_word {
                    out.push(' ');
                }
                out.push('"');
                in_word = true;
                any_word = true;
            }
            if c != '"' {
                out.push(c);
            }
            proof {
                let ncur = cur.push(c);
                lemma_join_push(done, ncur);
                assert(ncur.drop_last() =~= cur);
                if done.len() == 0 {
                    assert(out@ =~= join_quoted(done.push(ncur)).drop_last());
                } else {
                    assert(out@ =~= join_quoted(done.push(ncur)).drop_last());
                }
            }
        }
    }
    proof {
        let (done, cur) = word_scan(query@);
        assert(query@.take(query@.len() as int) =~= query@);
        lemma_join_push(done, cur);
    }
    if in_word {
        out.push('"');
        proof {
            let (done, cur) = word_scan(query@);
            assert(out@ =~= join_quoted(done.push(cur)));
        }
    }
    out
}

// ---------------------------------------------------------------------------
// The JSON text of file and tag lists
// ---------------------------------------------------------------------------

/// The error of `serde_json`, carried as an opaque value.
#[verifier::external_type_specification]
#[verifier::external_body]
pub struct ExJsonError(serde_json::Error);

/// The JSON text that `serde_json::to_string` gives for a list of strings.
pub uninterp spec fn json_text_of_strings(items: Seq<Seq<char>>) -> Seq<char>;

/// What `serde_json::from_str::<Vec<String>>` reads from a text: the list of
/// strings it holds, or `None` when it is not a JSON array of strings.
pub uninterp spec fn strings_of_json_text(text: Seq<char>) -> Option<Seq<Seq<char>>>;

/// `serde_json::to_string` on a list of strings. serde_json documents that
/// serialising fails only when a value's `Serialize` impl fails or a map has
/// non-string keys, neither of which a list of strings can do; and reading the
/// text back with `serde_json::from_str` gives the same list.
#[verifier::external_body]
fn json_of_strings(items: &Vec<String>) -> (res: Result<String, serde_json::Error>)
    ensures
        res is Ok,
        res matches Ok(s) ==> s@ == json_text_of_strings(items.deep_view()),
        res matches Ok(s) ==> strings_of_json_text(s@) == Some(items.deep_view()),
{
    serde_json::to_string(items)
}

/// `serde_json::from_str::<Vec<String>>`, with the error dropped.
#[verifier::external_body]
fn strings_of_json(text: &str) -> (res: Option<Vec<String>>)
    ensures
        res.deep_view() == strings_of_json_text(text@),
{
    match serde_json::from_str::<Vec<String>>(text) {
        Ok(v) => Some(v),
        Err(_) => None,
    }
}

/// The list read back from a stored column: the strings of its JSON text, or
/// none when the column is null or does not hold a JSON array of strings.
pub open spec fn decoded_list(column: Option<Seq<char>>) -> Seq<Seq<char>> {
    match column {
        Some(text) => match strings_of_json_text(text) {
            Some(items) => items,
            None => Seq::empty(),
        },
        None => Seq::empty(),
    }
}

/// The JSON text stored for a list of files or tags; reading it back gives the
/// same list.
pub fn encode_string_list(items: &Vec<String>) -> (res: String)
    ensures
        res@ == json_text_of_strings(items.deep_view()),
        decoded_list(Some(res@)) == items.deep_view(),
{
    match json_of_strings(items) {
        Ok(s) => s,
        Err(_) => {
            proof {
                assert(false);
            }
            String::new()
        },
    }
}

/// Reads a list of files or tags back from its stored column (see [`decoded_list`]).
pub fn decode_string_list(column: Option<&str>) -> (res: Vec<String>)
    ensures
        res.deep_view() == decoded_list(
            match column {
                Some(t) => Some(t@),
                None => None,
            },
        ),
{
    match column {
        Some(text) => match strings_of_json(text) {
            Some(items) => items,
            None => {
                let v: Vec<String> = Vec::new();
                assert(v.deep_view() =~= Seq::<Seq<char>>::empty());
                v
            },
        },
        None => {
            let v: Vec<String> = Vec::new();
            assert(v.deep_view() =~= Seq::<Seq<char>>::empty());
            v
        },
    }
}

// ---------------------------------------------------------------------------
// The creation time of a stored memory
// ---------------------------------------------------------------------------

/// The instant that `chrono::DateTime::parse_from_rfc3339` reads from a text, as
/// whole seconds since the Unix epoch and the nanoseconds past them, or `None`
/// when the text is not an RFC 3339 date and time.
pub uninterp spec fn rfc3339_instant_of(text: Seq<char>) -> Option<(i64, u32)>;

/// `chrono::DateTime::parse_from_rfc3339`, with the parsed instant read by
/// `DateTime::timestamp` and `DateTime::timestamp_subsec_nanos` (named, not computed).
#[verifier::external_body]
fn rfc3339_instant(text: &str) -> (res: Option<(i64, u32)>)
    ensures
        res == rfc3339_instant_of(text@),
{
    match chrono::DateTime::parse_from_rfc3339(text) {
        Ok(dt) => Some((dt.timestamp(), dt.timestamp_subsec_nanos())),
        Err(_) => None,
    }
}

/// The creation instant recorded in a memory's `created_at` column: the RFC 3339
/// time it holds, or `None` when it holds none.
pub fn created_at_of(text: &str) -> (res: Option<(i64, u32)>)
    ensures
        res == rfc3339_instant_of(text@),
{
    rfc3339_instant(text)
}

// ---------------------------------------------------------------------------
// Merging keyword and vector results
// ---------------------------------------------------------------------------

/// Where a merged result takes its memory from: a keyword result, or (when the
/// id is not among them) a vector result, by index.
#[derive(Clone, Copy, Debug, PartialEq, Eq, Structural)]
pub enum MemorySource {
    Keyword(usize),
    Vector(usize),
}

/// One memory of a hybrid search, before scoring: its id, the keyword and
/// vector results whose scores count for it, and the result its memory comes from.
pub struct MergeCandidate {
    pub id: String,
    /// The last keyword result with this id, if any (its score counts).
    pub keyword: Option<usize>,
    /// The last vector result with this id, if any (its score counts).
    pub vector: Option<usize>,
    pub memory: MemorySource,
}

/// The index of the last occurrence of `id` in `ids`.
pub open spec fn last_index_of(ids: Seq<Seq<char>>, id: Seq<char>) -> Option<int>
    decreases ids.len(),
{
    if ids.len() == 0 {
        None
    } else if ids.last() == id {
        Some(ids.len() - 1)
    } else {
        last_index_of(ids.drop_last(), id)
    }
}

/// The index of the first occurrence of `id` in `ids`.
pub open spec fn first_index_of(ids: Seq<Seq<char>>, id: Seq<char>) -> Option<int>
    decreases ids.len(),
{
    if ids.len() == 0 {
        None
    } else {
        match first_index_of(ids.drop_last(), id) {
            Some(i) => Some(i),
            None => if ids.last() == id {
                Some(ids.len() - 1)
            } else {
                None
            },
        }
    }
}

/// The elements of `s` in order of first occurrence, each once.
pub open spec fn unique_in_order(s: Seq<Seq<char>>) -> Seq<Seq<char>>
    decreases s.len(),
{
    if s.len() == 0 {
        Seq::empty()
    } else {
        let d = unique_in_order(s.drop_last());
        if d.contains(s.last()) {
            d
        } else {
            d.push(s.last())
        }
    }
}

/// An index as an integer.
pub open spec fn index_as_int(o: Option<usize>) -> Option<int> {
    match o {
        Some(i) => Some(i as int),
        None => None,
    }
}

/// The candidate for `id`: the scores of its last keyword and last vector
/// result, and the memory of its last keyword result, else of its first vector
/// result (as a keyed map keeps the last insertion, and an entry inserted only
/// when absent keeps the first).
pub open spec fn candidate_for(c: MergeCandidate, kw: Seq<Seq<char>>, vec: Seq<Seq<char>>) -> bool {
    &&& index_as_int(c.keyword) == last_index_of(kw, c.id@)
    &&& index_as_int(c.vector) == last_index_of(vec, c.id@)
    &&& match c.memory {
        MemorySource::Keyword(i) => last_index_of(kw, c.id@) == Some(i as int),
        MemorySource::Vector(j) => last_index_of(kw, c.id@) is None && first_index_of(vec, c.id@)
            == Some(j as int),
    }
}

fn last_index(ids: &Vec<String>, id: &str) -> (res: Option<usize>)
    ensures
        index_as_int(res) == last_index_of(ids.deep_view(), id@),
{
    let ghost v = ids.deep_view();
    let mut n = ids.len();
    assert(v.take(n as int) =~= v);
    while n > 0
        invariant
            n <= ids.len(),
            v == ids.deep_view(),
            last_index_of(v.take(n as int), id@) == last_index_of(v, id@),
        decreases n,
    {
        proof {
            assert(v.take(n as int).drop_last() =~= v.take(n - 1));
        }
        if text_is(ids[n - 1].as_str(), id) {
            return Some(n - 1);
        }
        n -= 1;
    }
    None
}

fn first_index(ids: &Vec<String>, id: &str) -> (res: Option<usize>)
    ensures
        index_as_int(res) == first_index_of(ids.deep_view(), id@),
{
    let ghost v = ids.deep_view();
    let mut i: usize = 0;
    while i < ids.len()
        invariant
            i <= ids.len(),
            v == ids.deep_view(),
            first_index_of(v.take(i as int), id@) is None,
        decreases ids.len() - i,
    {
        proof {
            assert(v.take(i + 1).drop_last() =~= v.take(i as int));
        }
        if text_is(ids[i].as_str(), id) {
            proof {
                lemma_first_index_prefix(v, id@, i as int + 1);
            }
            return Some(i);
        }
        i += 1;
    }
    proof {
        assert(v.take(i as int) =~= v);
    }
    None
}

/// A first occurrence found in a prefix is the first occurrence in the whole.
proof fn lemma_first_index_prefix(v: Seq<Seq<char>>, id: Seq<char>, n: int)
    requires
        0 <= n <= v.len(),
        first_index_of(v.take(n), id) is Some,
    ensures
        first_index_of(v, id) == first_index_of(v.take(n), id),
    decreases v.len() - n,
{
    if n < v.len() {
        assert(v.take(n + 1).drop_last() =~= v.take(n));
        lemma_first_index_prefix(v, id, n + 1);
    } else {
        assert(v.take(n) =~= v);
    }
}

fn has_candidate(cands: &Vec<MergeCandidate>, id: &str) -> (res: bool)
    ensures
        res == exists|k: int| 0 <= k < cands@.len() && #[trigger] cands@[k].id@ == id@,
{
    for k in 0..cands.len()
        invariant
            forall|m: int| 0 <= m < k ==> #[trigger] cands@[m].id@ != id@,
    {
        if text_is(cands[k].id.as_str(), id) {
            return true;
        }
    }
    false
}

/// The ids of the candidates.
pub open spec fn candidate_ids(cs: Seq<MergeCandidate>) -> Seq<Seq<char>> {
    cs.map_values(|c: MergeCandidate| c.id@)
}

/// Adds the candidate for `id` unless one is there already.
fn add_candidate(
    cands: &mut Vec<MergeCandidate>,
    id: &String,
    keyword_ids: &Vec<String>,
    vector_ids: &Vec<String>,
)
    requires
        last_index_of(keyword_ids.deep_view(), id@) is Some || first_index_of(
            vector_ids.deep_view(),
            id@,
        ) is Some,
        forall|k: int|
            0 <= k < old(cands)@.len() ==> candidate_for(
                #[trigger] old(cands)@[k],
                keyword_ids.deep_view(),
                vector_ids.deep_view(),
            ),
    ensures
        candidate_ids(final(cands)@) == if candidate_ids(old(cands)@).contains(id@) {
            candidate_ids(old(cands)@)
        } else {
            candidate_ids(old(cands)@).push(id@)
        },
        forall|k: int|
            0 <= k < final(cands)@.len() ==> candidate_for(
                #[trigger] final(cands)@[k],
                keyword_ids.deep_view(),
                vector_ids.deep_view(),
            ),
{
    let present = has_candidate(cands, id.as_str());
    proof {
        if present {
            let k = choose|k: int| 0 <= k < cands@.len() && #[trigger] cands@[k].id@ == id@;
            assert(candidate_ids(cands@)[k] == id@);
        } else {
            assert forall|k: int| 0 <= k < candidate_ids(cands@).len() implies candidate_ids(
                cands@,
            )[k] != id@ by {
                assert(candidate_ids(cands@)[k] == cands@[k].id@);
            }
        }
    }
    if present {
        return ;
    }
    let keyword = last_index(keyword_ids, id.as_str());
    let vector = last_index(vector_ids, id.as_str());
    let memory = match keyword {
        Some(i) => MemorySource::Keyword(i),
        None => match first_index(vector_ids, id.as_str()) {
            Some(j) => MemorySource::Vector(j),
            None => {
                proof {
                    assert(false);
                }
                MemorySource::Vector(0)
            },
        },
    };
    let c = MergeCandidate { id: id.clone(), keyword, vector, memory };
    let ghost before = cands@;
    cands.push(c);
    proof {
        assert(candidate_ids(cands@) =~= candidate_ids(before).push(id@));
    }
}

proof fn lemma_last_index_some(ids: Seq<Seq<char>>, k: int)
    requires
        0 <= k < ids.len(),
    ensures
        last_index_of(ids, ids[k]) is Some,
    decreases ids.len(),
{
    if ids.last() != ids[k] {
        assert(ids.drop_last()[k] == ids[k]);
        lemma_last_index_some(ids.drop_last(), k);
    }
}

proof fn lemma_first_index_some(ids: Seq<Seq<char>>, k: int)
    requires
        0 <= k < ids.len(),
    ensures
        first_index_of(ids, ids[k]) is Some,
    decreases ids.len(),
{
    if k < ids.len() - 1 {
        assert(ids.drop_last()[k] == ids[k]);
        lemma_first_index_some(ids.drop_last(), k);
    }
}

/// The candidates of a hybrid search: one for each id among the keyword and
/// vector results, in order of first appearance (keyword results first), each
/// with the results that count for it (see [`candidate_for`]).
pub fn merge_candidates(keyword_ids: &Vec<String>, vector_ids: &Vec<String>) -> (res: Vec<
    MergeCandidate,
>)
    ensures
        candidate_ids(res@) == unique_in_order(keyword_ids.deep_view() + vector_ids.deep_view()),
        forall|k: int|
            0 <= k < res@.len() ==> candidate_for(
                #[trigger] res@[k],
                keyword_ids.deep_view(),
                vector_ids.deep_view(),
            ),
{
    let ghost kw = keyword_ids.deep_view();
    let ghost vs = vector_ids.deep_view();
    let mut cands: Vec<MergeCandidate> = Vec::new();
    assert(candidate_ids(cands@) =~= unique_in_order(kw.take(0)));
    for i in 0..keyword_ids.len()
        invariant
            kw == keyword_ids.deep_view(),
            vs == vector_ids.deep_view(),
            candidate_ids(cands@) == unique_in_order(kw.take(i as int)),
            forall|k: int| 0 <= k < cands@.len() ==> candidate_for(#[trigger] cands@[k], kw, vs),
    {
        proof {
            assert(kw.take(i + 1).drop_last() =~= kw.take(i as int));
            assert(kw[i as int] == keyword_ids@[i as int]@);
            lemma_last_index_some(kw, i as int);
        }
        add_candidate(&mut cands, &keyword_ids[i], keyword_ids, vector_ids);
    }
    let ghost all = kw + vs;
    proof {
        assert(kw.take(kw.len() as int) =~= kw);
        assert(all.take(kw.len() as int) =~= kw);
    }
    for j in 0..vector_ids.len()
        invariant
            kw == keyword_ids.deep_view(),
            vs == vector_ids.deep_view(),
            all == kw + vs,
            candidate_ids(cands@) == unique_in_order(all.take(kw.len() + j)),
            forall|k: int| 0 <= k < cands@.len() ==> candidate_for(#[trigger] cands@[k], kw, vs),
    {
        proof {
            assert(all.take(kw.len() + j + 1).drop_last() =~= all.take(kw.len() + j));
            assert(all[kw.len() + j] == vs[j as int]);
            assert(vs[j as int] == vector_ids@[j as int]@);
            lemma_first_index_some(vs, j as int);
        }
        add_candidate(&mut cands, &vector_ids[j], keyword_ids, vector_ids);
    }
    proof {
        assert(all.take((kw.len() + vs.len()) as int) =~= all);
    }
    cands
}

/// A hybrid search lists each memory found by either search exactly once.
pub proof fn lemma_merge_lists_each_memory_once(kw: Seq<Seq<char>>, vec: Seq<Seq<char>>)
    ensures
        unique_in_order(kw + vec).no_duplicates(),
        forall|id: Seq<char>|
            #![trigger unique_in_order(kw + vec).contains(id)]
            unique_in_order(kw + vec).contains(id) <==> (kw.contains(id) || vec.contains(id)),
{
    lemma_unique_in_order(kw + vec);
    assert forall|id: Seq<char>|
        #![trigger unique_in_order(kw + vec).contains(id)]
        (kw + vec).contains(id) <==> (kw.contains(id) || vec.contains(id)) by {
        if kw.contains(id) {
            let k = choose|k: int| 0 <= k < kw.len() && kw[k] == id;
            assert((kw + vec)[k] == id);
        }
        if vec.contains(id) {
            let k = choose|k: int| 0 <= k < vec.len() && vec[k] == id;
            assert((kw + vec)[kw.len() + k] == id);
        }
        if (kw + vec).contains(id) {
            let k = choose|k: int| 0 <= k < (kw + vec).len() && (kw + vec)[k] == id;
            if k < kw.len() {
                assert(kw[k] == id);
            } else {
                assert(vec[k - kw.len()] == id);
            }
        }
    }
}

proof fn lemma_unique_in_order(s: Seq<Seq<char>>)
    ensures
        unique_in_order(s).no_duplicates(),
        forall|id: Seq<char>| #[trigger] unique_in_order(s).contains(id) <==> s.contains(id),
    decreases s.len(),
{
    if s.len() > 0 {
        let p = s.drop_last();
        lemma_unique_in_order(p);
        let d = unique_in_order(p);
        assert forall|id: Seq<char>| #[trigger] unique_in_order(s).contains(id) <==> s.contains(id) by {
            if p.contains(id) {
                let k = choose|k: int| 0 <= k < p.len() && p[k] == id;
                assert(s[k] == id);
            }
            if s.contains(id) {
                let k = choose|k: int| 0 <= k < s.len() && s[k] == id;
                if k < s.len() - 1 {
                    assert(p[k] == id);
                }
            }
            if !d.contains(s.last()) {
                if d.push(s.last()).contains(id) {
                    let k = choose|k: int| 0 <= k < d.push(s.last()).len() && d.push(s.last())[k] == id;
                    if k < d.len() {
                        assert(d[k] == id);
                    }
                }
                if d.contains(id) {
                    let k = choose|k: int| 0 <= k < d.len() && d[k] == id;
                    assert(d.push(s.last())[k] == id);
                }
                assert(d.push(s.last())[d.len() as int] == s.last());
            }
        }
        if !d.contains(s.last()) {
            assert forall|i: int, j: int|
                0 <= i < d.push(s.last()).len() && 0 <= j < d.push(s.last()).len() && i != j implies
                d.push(s.last())[i] != d.push(s.last())[j] by {
                if i < d.len() && j < d.len() {
                } else if i < d.len() {
                    assert(d.push(s.last())[i] == d[i]);
                } else {
                    assert(d.push(s.last())[j] == d[j]);
                }
            }
        }
    }
}

/// The number of memories from the `COUNT(*)` row, if any: 0 when there is no
/// row, else the count read as an unsigned number.
pub fn memory_count(count_row: Option<i64>) -> (res: u64)
    ensures
        res == match count_row {
            Some(c) => c as u64,
            None => 0u64,
        },
{
    match count_row {
        Some(c) => c as u64,
        None => 0,
    }
}

} // verus!

//! Character-level text utilities shared by the rest of the library.

use vstd::prelude::*;

verus! {

/// `String::push` appends one character to the end of the string.
pub assume_specification[ String::push ](s: &mut String, ch: char)
    ensures
        final(s)@ == old(s)@.push(ch),
;

/// The Unicode `White_Space` property: the characters that
/// `char::is_whitespace` (and so `str::split_whitespace`) treats as blanks.
pub open spec fn is_white_space(c: char) -> bool {
    let u = c as u32;
    ||| 0x09 <= u <= 0x0D
    ||| u == 0x20
    ||| u == 0x85
    ||| u == 0xA0
    ||| u == 0x1680
    ||| 0x2000 <= u <= 0x200A
    ||| u == 0x2028
    ||| u == 0x2029
    ||| u == 0x202F
    ||| u == 0x205F
    ||| u == 0x3000
}

/// Whether `c` has the Unicode `White_Space` property.
pub fn char_is_white_space(c: char) -> (res: bool)
    ensures
        res == is_white_space(c),
{
    let u = c as u32;
    (0x09 <= u && u <= 0x0D) || u == 0x20 || u == 0x85 || u == 0xA0 || u == 0x1680 || (0x2000
        <= u && u <= 0x200A) || u == 0x2028 || u == 0x2029 || u == 0x202F || u == 0x205F || u
        == 0x3000
}

/// Left-to-right scan of `s` into whitespace-separated words: the words
/// already closed by a blank, and the word still being read.
pub open spec fn word_scan(s: Seq<char>) -> (Seq<Seq<char>>, Seq<char>)
    decreases s.len(),
{
    if s.len() == 0 {
        (Seq::empty(), Seq::empty())
    } else {
        let (done, cur) = word_scan(s.drop_last());
        let c = s.last();
        if is_white_space(c) {
            if cur.len() > 0 {
                (done.push(cur), Seq::empty())
            } else {
                (done, cur)
            }
        } else {
            (done, cur.push(c))
        }
    }
}

/// The words of `s`, as `str::split_whitespace` yields them: the maximal
/// non-empty runs of characters without the `White_Space` property.
pub open spec fn words(s: Seq<char>) -> Seq<Seq<char>> {
    let (done, cur) = word_scan(s);
    if cur.len() > 0 {
        done.push(cur)
    } else {
        done
    }
}

/// No character of `s` is a blank.
pub open spec fn has_no_white_space(s: Seq<char>) -> bool {
    forall|i: int| 0 <= i < s.len() ==> !is_white_space(#[trigger] s[i])
}

/// Appending blank-free text extends the word being read and closes none.
pub proof fn lemma_word_scan_append_word(a: Seq<char>, b: Seq<char>)
    requires
        has_no_white_space(b),
    ensures
        word_scan(a + b) == (word_scan(a).0, word_scan(a).1 + b),
    decreases b.len(),
{
    if b.len() == 0 {
        assert(a + b =~= a);
        assert(word_scan(a).1 + b =~= word_scan(a).1);
    } else {
        let b0 = b.drop_last();
        assert(has_no_white_space(b0)) by {
            assert forall|i: int| 0 <= i < b0.len() implies !is_white_space(#[trigger] b0[i]) by {
                assert(b0[i] == b[i]);
            }
        }
        lemma_word_scan_append_word(a, b0);
        assert((a + b).drop_last() =~= a + b0);
        assert((a + b).last() == b.last());
        assert(!is_white_space(b[b.len() - 1]));
        assert((word_scan(a).1 + b0).push(b.last()) =~= word_scan(a).1 + b);
    }
}

/// Every word of the scan is non-empty and holds no blank.
pub proof fn lemma_word_scan_words_are_blank_free(s: Seq<char>)
    ensures
        has_no_white_space(word_scan(s).1),
        forall|i: int|
            0 <= i < word_scan(s).0.len() ==> #[trigger] word_scan(s).0[i].len() > 0
                && has_no_white_space(word_scan(s).0[i]),
    decreases s.len(),
{
    if s.len() > 0 {
        lemma_word_scan_words_are_blank_free(s.drop_last());
        let (done, cur) = word_scan(s.drop_last());
        if !is_white_space(s.last()) {
            assert forall|i: int| 0 <= i < cur.push(s.last()).len() implies !is_white_space(
                #[trigger] cur.push(s.last())[i],
            ) by {
                if i < cur.len() {
                    assert(cur.push(s.last())[i] == cur[i]);
                }
            }
        }
    }
}

/// The words of `s` are non-empty and hold no blank.
pub proof fn lemma_words_are_blank_free(s: Seq<char>)
    ensures
        forall|i: int|
            0 <= i < words(s).len() ==> #[trigger] words(s)[i].len() > 0 && has_no_white_space(
                words(s)[i],
            ),
{
    lemma_word_scan_words_are_blank_free(s);
}

/// A text has no words exactly when all its characters are blanks.
pub proof fn lemma_no_words_iff_blank(s: Seq<char>)
    ensures
        (words(s).len() == 0) <==> (forall|i: int| 0 <= i < s.len() ==> is_white_space(
            #[trigger] s[i],
        )),
    decreases s.len(),
{
    lemma_word_scan_empty_iff_blank(s);
    let (done, cur) = word_scan(s);
    if cur.len() > 0 {
        assert(done.push(cur).len() > 0);
    }
}

proof fn lemma_word_scan_empty_iff_blank(s: Seq<char>)
    ensures
        (word_scan(s).0.len() == 0 && word_scan(s).1.len() == 0) <==> (forall|i: int|
            0 <= i < s.len() ==> is_white_space(#[trigger] s[i])),
    decreases s.len(),
{
    if s.len() > 0 {
        let p = s.drop_last();
        lemma_word_scan_empty_iff_blank(p);
        let (done, cur) = word_scan(p);
        if forall|i: int| 0 <= i < s.len() ==> is_white_space(#[trigger] s[i]) {
            assert forall|i: int| 0 <= i < p.len() implies is_white_space(#[trigger] p[i]) by {
                assert(p[i] == s[i]);
            }
            assert(is_white_space(s[s.len() - 1]));
        } else {
            let j = choose|i: int| 0 <= i < s.len() && !is_white_space(#[trigger] s[i]);
            if j == s.len() - 1 {
                assert(!is_white_space(s.last()));
            } else {
                assert(p[j] == s[j]);
                if is_white_space(s.last()) && cur.len() > 0 {
                    assert(done.push(cur).len() > 0);
                }
            }
        }
    }
}

/// Index of the first `c` at or after `from`, or the length of `s` when there is none.
pub open spec fn index_of_from(s: Seq<char>, c: char, from: int) -> int
    decreases s.len() - from,
{
    if from >= s.len() {
        s.len() as int
    } else if s[from] == c {
        from
    } else {
        index_of_from(s, c, from + 1)
    }
}

/// Index of the first non-blank character at or after `from`, or the length of `s`.
pub open spec fn skip_blanks_from(s: Seq<char>, from: int) -> int
    decreases s.len() - from,
{
    if from >= s.len() {
        s.len() as int
    } else if !is_white_space(s[from]) {
        from
    } else {
        skip_blanks_from(s, from + 1)
    }
}

/// The first line of `s`, as `str::lines` yields it: the text before the first
/// `\n`, without the `\r` of a `\r\n` ending; all of `s` when it holds no `\n`.
pub open spec fn first_line(s: Seq<char>) -> Seq<char> {
    let j = index_of_from(s, '\n', 0);
    if j < s.len() && j > 0 && s[j - 1] == '\r' {
        s.take(j - 1)
    } else {
        s.take(j)
    }
}

pub proof fn lemma_index_of_from_bounds(s: Seq<char>, c: char, from: int)
    requires
        0 <= from,
    ensures
        from <= index_of_from(s, c, from) || from > s.len(),
        index_of_from(s, c, from) <= s.len(),
        index_of_from(s, c, from) < s.len() ==> s[index_of_from(s, c, from)] == c,
        forall|k: int| from <= k < index_of_from(s, c, from) ==> s[k] != c,
    decreases s.len() - from,
{
    if from < s.len() && s[from] != c {
        lemma_index_of_from_bounds(s, c, from + 1);
    }
}

/// Index of the first `c` in `v` at or after `from`, or `v.len()`.
pub fn find_char_from(v: &Vec<char>, c: char, from: usize) -> (res: usize)
    requires
        from <= v.len(),
    ensures
        res == index_of_from(v@, c, from as int),
        from <= res <= v.len(),
{
    let mut i = from;
    while i < v.len()
        invariant
            from <= i <= v.len(),
            index_of_from(v@, c, i as int) == index_of_from(v@, c, from as int),
        decreases v.len() - i,
    {
        if v[i] == c {
            return i;
        }
        i += 1;
    }
    i
}

/// Index of the first non-blank character of `v` at or after `from`, or `v.len()`.
pub fn skip_blanks(v: &Vec<char>, from: usize) -> (res: usize)
    requires
        from <= v.len(),
    ensures
        res == skip_blanks_from(v@, from as int),
        from <= res <= v.len(),
{
    let mut i = from;
    while i < v.len()
        invariant
            from <= i <= v.len(),
            skip_blanks_from(v@, i as int) == skip_blanks_from(v@, from as int),
        decreases v.len() - i,
    {
        if !char_is_white_space(v[i]) {
            return i;
        }
        i += 1;
    }
    i
}

/// The characters of `s`, in order.
pub fn chars_of(s: &str) -> (res: Vec<char>)
    ensures
        res@ == s@,
{
    let mut res: Vec<char> = Vec::new();
    for c in it: s.chars()
        invariant
            it.seq() == s@,
            res@ == s@.take(it.index() as int),
    {
        proof {
            assert(s@.take(it.index() + 1) =~= s@.take(it.index() as int).push(c));
        }
        res.push(c);
    }
    proof {
        assert(s@.take(s@.len() as int) =~= s@);
    }
    res
}

/// A string holding the characters `v[from..to]`.
pub fn string_from_chars(v: &Vec<char>, from: usize, to: usize) -> (res: String)
    requires
        from <= to <= v.len(),
    ensures
        res@ == v@.subrange(from as int, to as int),
{
    let mut res = String::new();
    let mut i = from;
    while i < to
        invariant
            from <= i <= to <= v.len(),
            res@ == v@.subrange(from as int, i as int),
        decreases to - i,
    {
        res.push(v[i]);
        proof {
            assert(v@.subrange(from as int, i + 1) =~= v@.subrange(from as int, i as int).push(
                v@[i as int],
            ));
        }
        i += 1;
    }
    res
}

/// The first line of `s` (see [`first_line`]).
pub fn first_line_of(s: &str) -> (res: String)
    ensures
        res@ == first_line(s@),
{
    let v = chars_of(s);
    let j = find_char_from(&v, '\n', 0);
    if j < v.len() && j > 0 && v[j - 1] == '\r' {
        string_from_chars(&v, 0, j - 1)
    } else {
        string_from_chars(&v, 0, j)
    }
}

/// Whether two character vectors hold the same characters.
pub fn chars_equal(a: &Vec<char>, b: &Vec<char>) -> (res: bool)
    ensures
        res == (a@ == b@),
{
    if a.len() != b.len() {
        return false;
    }
    let mut i: usize = 0;
    while i < a.len()
        invariant
            a.len() == b.len(),
            i <= a.len(),
            forall|k: int| 0 <= k < i ==> a@[k] == b@[k],
        decreases a.len() - i,
    {
        if a[i] != b[i] {
            return false;
        }
        i += 1;
    }
    assert(a@ =~= b@);
    true
}

/// Whether the string holds exactly the characters of `lit`.
pub fn text_is(s: &str, lit: &str) -> (res: bool)
    ensures
        res == (s@ == lit@),
{
    chars_equal(&chars_of(s), &chars_of(lit))
}

/// Builds an owned string holding exactly the characters of `s`.
pub fn string_of(s: &str) -> (res: String)
    ensures
        res@ == s@,
{
    let mut res = String::new();
    for c in it: s.chars()
        invariant
            res@ == it.seq().take(it.index() as int),
    {
        res.push(c);
    }
    res
}

} // verus!

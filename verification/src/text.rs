//! Operations on text that the tokenizer is built from: trimming, prefix
//! removal and the first line of a string.

use vstd::prelude::*;

verus! {

/// Whether Unicode classifies the character as `White_Space`.
pub uninterp spec fn unicode_whitespace(c: char) -> bool;

/// `char::is_whitespace` of the standard library: the result says whether
/// the character is Unicode `White_Space`, which `unicode_whitespace`
/// names. Nothing is claimed about which characters are.
pub assume_specification[ char::is_whitespace ](c: char) -> (b: bool)
    ensures
        b == unicode_whitespace(c),
;

/// The text without its leading space characters.
pub open spec fn skip_spaces(s: Seq<char>) -> Seq<char>
    decreases s.len(),
{
    if s.len() > 0 && s[0] == ' ' {
        skip_spaces(s.drop_first())
    } else {
        s
    }
}

/// The text without its leading whitespace.
pub open spec fn trim_start(s: Seq<char>) -> Seq<char>
    decreases s.len(),
{
    if s.len() > 0 && unicode_whitespace(s[0]) {
        trim_start(s.drop_first())
    } else {
        s
    }
}

/// The text without its trailing whitespace.
pub open spec fn trim_end(s: Seq<char>) -> Seq<char>
    decreases s.len(),
{
    if s.len() > 0 && unicode_whitespace(s.last()) {
        trim_end(s.drop_last())
    } else {
        s
    }
}

/// The text without the whitespace around it.
pub open spec fn trim(s: Seq<char>) -> Seq<char> {
    trim_end(trim_start(s))
}

/// Skipping the first `i` characters, all of them spaces, does not change
/// what is left once the leading spaces are gone.
proof fn lemma_skip_spaces_step(s: Seq<char>, i: int)
    requires
        0 <= i < s.len(),
        s[i] == ' ',
    ensures
        skip_spaces(s.skip(i)) == skip_spaces(s.skip(i + 1)),
{
    assert(s.skip(i).drop_first() == s.skip(i + 1));
}

/// Removes the leading space characters, and only those.
pub fn trim_leading_spaces(s: &str) -> (rest: &str)
    ensures
        rest@ == skip_spaces(s@),
{
    let n = s.unicode_len();
    let mut i: usize = 0;
    proof {
        assert(s@.skip(0) == s@);
    }
    while i < n && s.get_char(i) == ' '
        invariant
            i <= n,
            n == s@.len(),
            skip_spaces(s@) == skip_spaces(s@.skip(i as int)),
        decreases n - i,
    {
        proof {
            lemma_skip_spaces_step(s@, i as int);
        }
        i = i + 1;
    }
    proof {
        assert(s@.skip(i as int) == s@.subrange(i as int, n as int));
    }
    s.substring_char(i, n)
}

/// Skipping one more leading whitespace character does not change what is
/// left once the leading whitespace is gone.
proof fn lemma_trim_start_step(s: Seq<char>, i: int)
    requires
        0 <= i < s.len(),
        unicode_whitespace(s[i]),
    ensures
        trim_start(s.skip(i)) == trim_start(s.skip(i + 1)),
{
    assert(s.skip(i).drop_first() == s.skip(i + 1));
}

/// Dropping one more trailing whitespace character does not change what is
/// left once the trailing whitespace is gone.
proof fn lemma_trim_end_step(s: Seq<char>, j: int)
    requires
        0 < j <= s.len(),
        unicode_whitespace(s[j - 1]),
    ensures
        trim_end(s.take(j)) == trim_end(s.take(j - 1)),
{
    assert(s.take(j).drop_last() == s.take(j - 1));
}

/// Removes the whitespace at both ends.
pub fn trim_whitespace(s: &str) -> (rest: &str)
    ensures
        rest@ == trim(s@),
{
    let n = s.unicode_len();
    let mut i: usize = 0;
    proof {
        assert(s@.skip(0) == s@);
    }
    while i < n && s.get_char(i).is_whitespace()
        invariant
            i <= n,
            n == s@.len(),
            trim_start(s@) == trim_start(s@.skip(i as int)),
        decreases n - i,
    {
        proof {
            lemma_trim_start_step(s@, i as int);
        }
        i = i + 1;
    }
    let ghost front = s@.skip(i as int);
    let mut j: usize = n;
    proof {
        assert(front.take(front.len() as int) == front);
    }
    while j > i && s.get_char(j - 1).is_whitespace()
        invariant
            i <= j <= n,
            n == s@.len(),
            front == s@.skip(i as int),
            trim_start(s@) == front,
            trim_end(front) == trim_end(front.take(j - i)),
        decreases j,
    {
        proof {
            lemma_trim_end_step(front, j - i);
        }
        j = j - 1;
    }
    proof {
        assert(front.take(j - i) == s@.subrange(i as int, j as int));
    }
    s.substring_char(i, j)
}

/// What is left of the text after the given prefix, if it starts with it.
pub open spec fn without_prefix(s: Seq<char>, prefix: Seq<char>) -> Option<Seq<char>> {
    if prefix.is_prefix_of(s) {
        Some(s.skip(prefix.len() as int))
    } else {
        None
    }
}

/// Removes the prefix from the text; `None` if the text does not start
/// with it.
pub fn strip_prefix<'a>(s: &'a str, prefix: &str) -> (rest: Option<&'a str>)
    ensures
        match rest {
            Some(r) => without_prefix(s@, prefix@) == Some(r@),
            None => without_prefix(s@, prefix@) is None,
        },
{
    let n = s.unicode_len();
    let k = prefix.unicode_len();
    if k > n {
        return None;
    }
    let head = String::from_str(s.substring_char(0, k));
    let wanted = String::from_str(prefix);
    if head == wanted {
        proof {
            assert(s@.skip(k as int) == s@.subrange(k as int, n as int));
        }
        Some(s.substring_char(k, n))
    } else {
        None
    }
}

/// The number of characters before the first line feed, or the length of
/// the text if it holds none.
pub open spec fn line_end(s: Seq<char>) -> int
    decreases s.len(),
{
    if s.len() > 0 && s[0] != '\n' {
        1 + line_end(s.drop_first())
    } else {
        0
    }
}

/// The first line of the text: what stands before the first line feed,
/// without the carriage return that directly precedes that line feed.
pub open spec fn first_line(s: Seq<char>) -> Seq<char> {
    let n = line_end(s);
    if 0 < n < s.len() && s[n - 1] == '\r' {
        s.take(n - 1)
    } else {
        s.take(n)
    }
}

/// Counting on from position `i`, with no line feed before it, gives the
/// same line end.
proof fn lemma_line_end_step(s: Seq<char>, i: int)
    requires
        0 <= i < s.len(),
        s[i] != '\n',
    ensures
        line_end(s.skip(i)) == 1 + line_end(s.skip(i + 1)),
{
    assert(s.skip(i).drop_first() == s.skip(i + 1));
}

/// The first line of the text, without its line terminator.
pub fn first_line_of(s: &str) -> (line: &str)
    ensures
        line@ == first_line(s@),
{
    let n = s.unicode_len();
    let mut i: usize = 0;
    proof {
        assert(s@.skip(0) == s@);
    }
    while i < n && s.get_char(i) != '\n'
        invariant
            i <= n,
            n == s@.len(),
            line_end(s@) == i + line_end(s@.skip(i as int)),
        decreases n - i,
    {
        proof {
            lemma_line_end_step(s@, i as int);
        }
        i = i + 1;
    }
    if 0 < i && i < n && s.get_char(i - 1) == '\r' {
        s.substring_char(0, i - 1)
    } else {
        s.substring_char(0, i)
    }
}

/// Skipping spaces never lengthens the text.
pub proof fn lemma_skip_spaces_len(s: Seq<char>)
    ensures
        skip_spaces(s).len() <= s.len(),
    decreases s.len(),
{
    if s.len() > 0 && s[0] == ' ' {
        lemma_skip_spaces_len(s.drop_first());
    }
}

/// Trimming never lengthens the text.
pub proof fn lemma_trim_len(s: Seq<char>)
    ensures
        trim_start(s).len() <= s.len(),
        trim_end(s).len() <= s.len(),
        trim(s).len() <= s.len(),
    decreases s.len(),
{
    if s.len() > 0 && unicode_whitespace(s[0]) {
        lemma_trim_len(s.drop_first());
    }
    if s.len() > 0 && unicode_whitespace(s.last()) {
        lemma_trim_len(s.drop_last());
    }
    lemma_trim_end_len(trim_start(s));
}

/// Trimming the end never lengthens the text.
proof fn lemma_trim_end_len(s: Seq<char>)
    ensures
        trim_end(s).len() <= s.len(),
    decreases s.len(),
{
    if s.len() > 0 && unicode_whitespace(s.last()) {
        lemma_trim_end_len(s.drop_last());
    }
}

/// Whether the character is insignificant between tokens: a space or any
/// other whitespace.
pub open spec fn is_blank(c: char) -> bool {
    c == ' ' || unicode_whitespace(c)
}

/// The text without its blank characters.
pub open spec fn significant(s: Seq<char>) -> Seq<char>
    decreases s.len(),
{
    if s.len() == 0 {
        s
    } else if is_blank(s[0]) {
        significant(s.drop_first())
    } else {
        seq![s[0]] + significant(s.drop_first())
    }
}

/// The significant characters of a concatenation are those of its parts,
/// in order.
pub proof fn lemma_significant_concat(a: Seq<char>, b: Seq<char>)
    ensures
        significant(a + b) == significant(a) + significant(b),
    decreases a.len(),
{
    if a.len() == 0 {
        assert(a + b == b);
        assert(significant(a) + significant(b) == significant(b));
    } else {
        assert((a + b).drop_first() == a.drop_first() + b);
        lemma_significant_concat(a.drop_first(), b);
        if !is_blank(a[0]) {
            assert(seq![a[0]] + (significant(a.drop_first()) + significant(b)) == (seq![a[0]]
                + significant(a.drop_first())) + significant(b));
        }
    }
}

/// Skipping leading spaces removes no significant character.
pub proof fn lemma_significant_skip_spaces(s: Seq<char>)
    ensures
        significant(skip_spaces(s)) == significant(s),
    decreases s.len(),
{
    if s.len() > 0 && s[0] == ' ' {
        lemma_significant_skip_spaces(s.drop_first());
    }
}

/// Trimming removes no significant character.
pub proof fn lemma_significant_trim(s: Seq<char>)
    ensures
        significant(trim(s)) == significant(s),
{
    lemma_significant_trim_start(s);
    lemma_significant_trim_end(trim_start(s));
}

proof fn lemma_significant_trim_start(s: Seq<char>)
    ensures
        significant(trim_start(s)) == significant(s),
    decreases s.len(),
{
    if s.len() > 0 && unicode_whitespace(s[0]) {
        lemma_significant_trim_start(s.drop_first());
    }
}

proof fn lemma_significant_trim_end(s: Seq<char>)
    ensures
        significant(trim_end(s)) == significant(s),
    decreases s.len(),
{
    if s.len() > 0 && unicode_whitespace(s.last()) {
        let front = s.drop_last();
        let back = seq![s.last()];
        lemma_significant_trim_end(front);
        assert(s == front + back);
        lemma_significant_concat(front, back);
        assert(significant(back) == Seq::<char>::empty()) by {
            assert(is_blank(back[0]));
            assert(significant(back.drop_first()) == back.drop_first());
        }
        assert(significant(front) + Seq::<char>::empty() == significant(front));
    }
}

} // verus!

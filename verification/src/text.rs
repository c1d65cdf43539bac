//! Text handling: case folding, prefixes, and splitting a key file into words.
use vstd::prelude::*;

verus! {

/// What `str::to_lowercase` gives for a text (Unicode lowercase mapping).
pub uninterp spec fn lowercase(s: Seq<char>) -> Seq<char>;

/// A character below 128.
pub open spec fn is_ascii_char(c: char) -> bool {
    (c as u32) < 128
}

/// An ASCII letter folded to lower case; any other character unchanged.
pub open spec fn ascii_lower(c: char) -> char {
    if 65 <= (c as u32) <= 90 {
        ((c as u32) + 32) as char
    } else {
        c
    }
}

/// Calls `str::to_lowercase`. The result is named by `lowercase`, a function
/// of the text alone; for a text of ASCII characters it is the text with each
/// capital letter A-Z replaced by its small letter. Nothing more is stated of
/// the Unicode case mapping.
#[verifier::external_body]
pub(crate) fn to_lowercase(s: &str) -> (r: String)
    ensures
        r@ == lowercase(s@),
        (forall|i: int| 0 <= i < s@.len() ==> is_ascii_char(#[trigger] s@[i])) ==> r@ == s@.map_values(
            |c: char| ascii_lower(c),
        ),
{
    s.to_lowercase()
}

/// Whether a character has the Unicode `White_Space` property, as
/// `char::is_whitespace` tells.
pub open spec fn is_whitespace(c: char) -> bool {
    let u = c as u32;
    ||| 0x9 <= u <= 0xd
    ||| u == 0x20
    ||| u == 0x85
    ||| u == 0xa0
    ||| u == 0x1680
    ||| 0x2000 <= u <= 0x200a
    ||| u == 0x2028
    ||| u == 0x2029
    ||| u == 0x202f
    ||| u == 0x205f
    ||| u == 0x3000
}

/// Whether a character is whitespace.
pub fn char_is_whitespace(c: char) -> (r: bool)
    ensures
        r == is_whitespace(c),
{
    let u = c as u32;
    (0x9 <= u && u <= 0xd) || u == 0x20 || u == 0x85 || u == 0xa0 || u == 0x1680 || (0x2000 <= u
        && u <= 0x200a) || u == 0x2028 || u == 0x2029 || u == 0x202f || u == 0x205f || u == 0x3000
}

/// An ASCII decimal digit.
pub open spec fn is_digit(c: char) -> bool {
    48 <= (c as u32) <= 57
}

/// The value of a decimal digit.
pub open spec fn digit_value(c: char) -> nat {
    if is_digit(c) {
        ((c as u32) - 48) as nat
    } else {
        0
    }
}

/// Every character is a decimal digit.
pub open spec fn all_digits(s: Seq<char>) -> bool {
    forall|i: int| 0 <= i < s.len() ==> is_digit(#[trigger] s[i])
}

/// The number that a string of decimal digits writes.
pub open spec fn decimal_value(s: Seq<char>) -> nat
    decreases s.len(),
{
    if s.len() == 0 {
        0
    } else {
        decimal_value(s.drop_last()) * 10 + digit_value(s.last())
    }
}

/// A text without its leading `+`, if it has one.
pub open spec fn unsigned_digits(s: Seq<char>) -> Seq<char> {
    if s.len() > 0 && s[0] == '+' {
        s.skip(1)
    } else {
        s
    }
}

/// What `str::parse::<usize>` reads a text as: an optional `+` followed by
/// one or more decimal digits whose number fits in `usize`; `None` otherwise.
pub open spec fn parsed_index(s: Seq<char>) -> Option<usize> {
    let d = unsigned_digits(s);
    if d.len() > 0 && all_digits(d) && decimal_value(d) <= usize::MAX {
        Some(decimal_value(d) as usize)
    } else {
        None
    }
}

proof fn lemma_decimal_prefix(d: Seq<char>, k: int)
    requires
        0 <= k <= d.len(),
    ensures
        decimal_value(d.take(k)) <= decimal_value(d),
    decreases d.len(),
{
    if k < d.len() {
        lemma_decimal_prefix(d.drop_last(), k);
        assert(d.drop_last().take(k) =~= d.take(k));
    } else {
        assert(d.take(k) =~= d);
    }
}

/// Reads a text as a number, as `str::parse::<usize>` does, `None` where it
/// reports an error.
pub fn parse_index(s: &str) -> (r: Option<usize>)
    ensures
        r == parsed_index(s@),
{
    let n = s.unicode_len();
    let mut start: usize = 0;
    if n > 0 && s.get_char(0) == '+' {
        start = 1;
    }
    let ghost d = unsigned_digits(s@);
    assert(d =~= s@.skip(start as int));
    if start >= n {
        return None;
    }
    let mut value: usize = 0;
    let mut i: usize = start;
    assert(d.take(0) =~= Seq::<char>::empty());
    while i < n
        invariant
            n == s@.len(),
            start <= i <= n,
            d == unsigned_digits(s@),
            d =~= s@.skip(start as int),
            all_digits(d.take(i - start)),
            value == decimal_value(d.take(i - start)),
        decreases n - i,
    {
        let c = s.get_char(i);
        let code = c as u32;
        assert(d[i - start] == c);
        if code < 48 || code > 57 {
            assert(!is_digit(d[i - start]));
            return None;
        }
        let next: u128 = (value as u128) * 10 + ((code - 48) as u128);
        assert(d.take(i - start + 1).drop_last() =~= d.take(i - start));
        assert(next == decimal_value(d.take(i - start + 1)));
        if next > usize::MAX as u128 {
            proof {
                if all_digits(d) {
                    lemma_decimal_prefix(d, i - start + 1);
                }
            }
            return None;
        }
        value = next as usize;
        i = i + 1;
    }
    assert(d.take(n - start) =~= d);
    Some(value)
}

/// `s` begins with `prefix`.
pub open spec fn starts_with(s: Seq<char>, prefix: Seq<char>) -> bool {
    prefix.len() <= s.len() && s.subrange(0, prefix.len() as int) == prefix
}

/// Whether `s` begins with `prefix`.
pub fn has_prefix(s: &str, prefix: &str) -> (r: bool)
    ensures
        r == starts_with(s@, prefix@),
{
    let n = s.unicode_len();
    let m = prefix.unicode_len();
    if m > n {
        return false;
    }
    let mut i: usize = 0;
    while i < m
        invariant
            n == s@.len(),
            m == prefix@.len(),
            m <= n,
            i <= m,
            forall|j: int| 0 <= j < i ==> s@[j] == prefix@[j],
        decreases m - i,
    {
        if s.get_char(i) != prefix.get_char(i) {
            assert(s@.subrange(0, m as int)[i as int] != prefix@[i as int]);
            return false;
        }
        i = i + 1;
    }
    assert(s@.subrange(0, m as int) =~= prefix@);
    true
}

/// A text without its leading whitespace.
pub open spec fn trim_start(s: Seq<char>) -> Seq<char>
    decreases s.len(),
{
    if s.len() > 0 && is_whitespace(s[0]) {
        trim_start(s.drop_first())
    } else {
        s
    }
}

/// A text without its trailing whitespace.
pub open spec fn trim_end(s: Seq<char>) -> Seq<char>
    decreases s.len(),
{
    if s.len() > 0 && is_whitespace(s.last()) {
        trim_end(s.drop_last())
    } else {
        s
    }
}

/// A text without its leading and trailing whitespace, as `str::trim` gives it.
pub open spec fn trimmed(s: Seq<char>) -> Seq<char> {
    trim_end(trim_start(s))
}

/// The position of the first character that is not whitespace.
fn leading_whitespace(s: &str) -> (i: usize)
    ensures
        i <= s@.len(),
        trim_start(s@) == s@.skip(i as int),
{
    let n = s.unicode_len();
    let mut i: usize = 0;
    assert(s@.skip(0) =~= s@);
    while i < n
        invariant
            n == s@.len(),
            i <= n,
            trim_start(s@) == trim_start(s@.skip(i as int)),
        decreases n - i,
    {
        let c = s.get_char(i);
        assert(s@.skip(i as int)[0] == c);
        if !char_is_whitespace(c) {
            return i;
        }
        assert(s@.skip(i as int).drop_first() =~= s@.skip(i + 1));
        i = i + 1;
    }
    assert(s@.skip(n as int) =~= Seq::<char>::empty());
    i
}

/// The end of the text from `start` on without its trailing whitespace.
fn trailing_whitespace(s: &str, start: usize) -> (j: usize)
    requires
        start <= s@.len(),
    ensures
        start <= j <= s@.len(),
        trim_end(s@.skip(start as int)) == s@.subrange(start as int, j as int),
{
    let n = s.unicode_len();
    let mut j: usize = n;
    assert(s@.skip(start as int) =~= s@.subrange(start as int, n as int));
    while j > start
        invariant
            n == s@.len(),
            start <= j <= n,
            trim_end(s@.skip(start as int)) == trim_end(s@.subrange(start as int, j as int)),
        decreases j,
    {
        let c = s.get_char(j - 1);
        let ghost t = s@.subrange(start as int, j as int);
        assert(t.last() == c);
        if !char_is_whitespace(c) {
            return j;
        }
        assert(t.drop_last() =~= s@.subrange(start as int, j - 1));
        j = j - 1;
    }
    assert(s@.subrange(start as int, j as int) =~= Seq::<char>::empty());
    j
}

/// The text without its leading and trailing whitespace.
pub fn trim(s: &str) -> (r: String)
    ensures
        r@ == trimmed(s@),
{
    let i = leading_whitespace(s);
    let j = trailing_whitespace(s, i);
    String::from_str(s.substring_char(i, j))
}

/// The whitespace-separated words of a text, in order: the maximal runs of
/// characters that are not whitespace.
pub open spec fn words(s: Seq<char>) -> Seq<Seq<char>>
    decreases s.len(),
{
    if s.len() == 0 {
        seq![]
    } else {
        let prev = words(s.drop_last());
        let c = s.last();
        if is_whitespace(c) {
            prev
        } else if s.len() >= 2 && !is_whitespace(s[s.len() - 2]) {
            prev.update(prev.len() - 1, prev.last().push(c))
        } else {
            prev.push(seq![c])
        }
    }
}

/// The texts of a list of strings.
pub open spec fn texts(v: Seq<String>) -> Seq<Seq<char>> {
    v.map_values(|x: String| x@)
}

/// Words joined with one space between each two.
pub open spec fn join_spaced(ws: Seq<Seq<char>>) -> Seq<char>
    decreases ws.len(),
{
    if ws.len() == 0 {
        seq![]
    } else if ws.len() == 1 {
        ws[0]
    } else {
        join_spaced(ws.drop_last()) + " "@ + ws.last()
    }
}

/// Splits a text at whitespace, as `str::split_whitespace` does.
pub fn split_whitespace(s: &str) -> (r: Vec<String>)
    ensures
        texts(r@) == words(s@),
{
    let n = s.unicode_len();
    let mut out: Vec<String> = Vec::new();
    let mut in_word = false;
    let mut i: usize = 0;
    while i < n
        invariant
            n == s@.len(),
            i <= n,
            texts(out@) == words(s@.subrange(0, i as int)),
            in_word == (i > 0 && !is_whitespace(s@[i - 1])),
            in_word ==> out@.len() > 0,
        decreases n - i,
    {
        let c = s.get_char(i);
        let ghost pre = s@.subrange(0, i as int);
        let ghost cur = s@.subrange(0, i + 1);
        assert(cur.drop_last() =~= pre);
        assert(cur.last() == c);
        if char_is_whitespace(c) {
            in_word = false;
        } else {
            let piece = s.substring_char(i, i + 1);
            assert(piece@ =~= seq![c]);
            if in_word {
                let ghost before = texts(out@);
                let ghost old_out = out@;
                let mut w = out.pop().unwrap();
                assert(w@ == before.last());
                w.append(piece);
                assert(w@ =~= before.last().push(c));
                out.push(w);
                assert(texts(out@).len() == before.len());
                assert(texts(out@)[before.len() - 1] == w@);
                assert(out@ == old_out.drop_last().push(w));
                assert forall|j: int| 0 <= j < before.len() - 1 implies texts(out@)[j] == before[j] by {
                    assert(out@[j] == old_out[j]);
                }
                assert(cur.len() >= 2);
                assert(cur[cur.len() - 2] == s@[i - 1]);
                assert(!is_whitespace(cur[cur.len() - 2]));
                assert(before == words(pre));
                assert(words(cur) == before.update(before.len() - 1, before.last().push(c)));
                assert(texts(out@) =~= before.update(before.len() - 1, before.last().push(c)));
            } else {
                out.push(String::from_str(piece));
                assert(texts(out@) =~= words(cur));
            }
            in_word = true;
        }
        i = i + 1;
    }
    assert(s@.subrange(0, n as int) =~= s@);
    out
}

/// Joins the words from position `start` on, with one space between each two.
pub fn join_words_from(ws: &Vec<String>, start: usize) -> (r: String)
    requires
        start <= ws@.len(),
    ensures
        r@ == join_spaced(texts(ws@).skip(start as int)),
{
    let mut out = String::new();
    let mut i: usize = start;
    while i < ws.len()
        invariant
            start <= i <= ws@.len(),
            out@ == join_spaced(texts(ws@).subrange(start as int, i as int)),
        decreases ws.len() - i,
    {
        let ghost pre = texts(ws@).subrange(start as int, i as int);
        let ghost cur = texts(ws@).subrange(start as int, i + 1);
        assert(cur.drop_last() =~= pre);
        if i > start {
            out.append(" ");
        }
        out.append(ws[i].as_str());
        assert(out@ =~= join_spaced(cur));
        i = i + 1;
    }
    assert(texts(ws@).subrange(start as int, ws@.len() as int) =~= texts(ws@).skip(start as int));
    out
}

/// The text of an optional string.
pub open spec fn opt_text(o: Option<String>) -> Option<Seq<char>> {
    match o {
        Some(s) => Some(s@),
        None => None,
    }
}

} // verus!

//! Strings as sequences of characters: the code point order, substring search,
//! case folding, lines and words.

use vstd::prelude::*;
use vstd::string::StringSliceAdditionalSpecFns;

verus! {

/// What `str::to_lowercase` returns for a string of these characters.
pub uninterp spec fn lowercase(s: Seq<char>) -> Seq<char>;

/// Calls `str::to_lowercase`, which returns the lowercase equivalent of `s` as a new
/// string. The contract claims that the result depends on the characters of `s`
/// alone, and that the empty string stays empty.
#[verifier::external_body]
pub(crate) fn to_lowercase(s: &str) -> (r: String)
    ensures
        r@ == lowercase(s@),
        s@.len() == 0 ==> r@.len() == 0,
{
    s.to_lowercase()
}

/// The characters of `s`, in order.
pub fn chars_of(s: &str) -> (v: Vec<char>)
    ensures
        v@ == s@,
{
    let mut v: Vec<char> = Vec::new();
    for c in it: s.chars()
        invariant
            v@ == it.seq().take(it.index() as int),
            it.seq() == s@,
    {
        v.push(c);
    }
    v
}

/// `a` has a smaller code point than `b`.
pub open spec fn char_less(a: char, b: char) -> bool {
    (a as u32) < (b as u32)
}

/// Two different characters have different code points.
pub proof fn lemma_char_less_total(a: char, b: char)
    ensures
        a == b || char_less(a, b) || char_less(b, a),
{
    vstd::utf8::char_u32_cast(a, a as u32);
    vstd::utf8::char_u32_cast(b, b as u32);
}

/// `a` and `b` agree on their first `k` characters.
pub open spec fn common_prefix(a: Seq<char>, b: Seq<char>, k: int) -> bool {
    &&& 0 <= k <= a.len()
    &&& k <= b.len()
    &&& forall|j: int| 0 <= j < k ==> a[j] == b[j]
}

/// `a` comes strictly before `b` in the lexicographic order by code point:
/// after a common prefix either `a` ends and `b` goes on, or `a` has the
/// smaller character.
pub open spec fn lex_less(a: Seq<char>, b: Seq<char>) -> bool {
    exists|k: int| #[trigger]
        common_prefix(a, b, k) && (if k == a.len() {
            k < b.len()
        } else {
            k < b.len() && char_less(a[k], b[k])
        })
}

/// The length of the longest common prefix of `a` and `b`.
pub open spec fn first_difference(a: Seq<char>, b: Seq<char>) -> int
    decreases a.len(),
{
    if a.len() == 0 || b.len() == 0 || a[0] != b[0] {
        0
    } else {
        1 + first_difference(a.skip(1), b.skip(1))
    }
}

/// `a` and `b` agree before `first_difference` and differ there, unless one ends.
pub proof fn lemma_first_difference(a: Seq<char>, b: Seq<char>)
    ensures
        common_prefix(a, b, first_difference(a, b)),
        first_difference(a, b) < a.len() && first_difference(a, b) < b.len() ==> a[first_difference(
            a,
            b,
        )] != b[first_difference(a, b)],
    decreases a.len(),
{
    if a.len() == 0 || b.len() == 0 || a[0] != b[0] {
    } else {
        lemma_first_difference(a.skip(1), b.skip(1));
        let k = first_difference(a.skip(1), b.skip(1));
        assert forall|j: int| 0 <= j < k + 1 implies a[j] == b[j] by {
            if j > 0 {
                assert(a.skip(1)[j - 1] == b.skip(1)[j - 1]);
            }
        }
    }
}

/// No string comes before itself.
pub proof fn lemma_lex_less_irreflexive(a: Seq<char>)
    ensures
        !lex_less(a, a),
{
}

/// The lexicographic order is transitive.
pub proof fn lemma_lex_less_transitive(a: Seq<char>, b: Seq<char>, c: Seq<char>)
    requires
        lex_less(a, b),
        lex_less(b, c),
    ensures
        lex_less(a, c),
{
    let k1 = choose|k: int| #[trigger]
        common_prefix(a, b, k) && (if k == a.len() {
            k < b.len()
        } else {
            k < b.len() && char_less(a[k], b[k])
        });
    let k2 = choose|k: int| #[trigger]
        common_prefix(b, c, k) && (if k == b.len() {
            k < c.len()
        } else {
            k < c.len() && char_less(b[k], c[k])
        });
    let k = if k1 <= k2 {
        k1
    } else {
        k2
    };
    assert(common_prefix(a, c, k));
}

/// Two different strings are ordered one way or the other.
pub proof fn lemma_lex_less_total(a: Seq<char>, b: Seq<char>)
    ensures
        a == b || lex_less(a, b) || lex_less(b, a),
{
    lemma_first_difference(a, b);
    let k = first_difference(a, b);
    assert(common_prefix(b, a, k));
    if k == a.len() && k == b.len() {
        assert(a =~= b);
    } else if k < a.len() && k < b.len() {
        lemma_char_less_total(a[k], b[k]);
    }
}

/// Of two strings at most one comes before the other.
pub proof fn lemma_lex_less_asymmetric(a: Seq<char>, b: Seq<char>)
    requires
        lex_less(a, b),
    ensures
        !lex_less(b, a),
{
    if lex_less(b, a) {
        lemma_lex_less_transitive(a, b, a);
        lemma_lex_less_irreflexive(a);
    }
}

/// Whether `a` has a smaller code point than `b`.
pub fn char_before(a: char, b: char) -> (r: bool)
    ensures
        r == char_less(a, b),
{
    a < b
}

/// The length of the longest common prefix of `a` and `b`.
pub fn common_prefix_len(a: &Vec<char>, b: &Vec<char>) -> (k: usize)
    ensures
        common_prefix(a@, b@, k as int),
        k < a.len() && k < b.len() ==> a[k as int] != b[k as int],
{
    let mut k: usize = 0;
    while k < a.len() && k < b.len() && a[k] == b[k]
        invariant
            common_prefix(a@, b@, k as int),
        decreases a.len() - k,
    {
        k += 1;
    }
    k
}

/// Where `a` and `b` first differ decides their order.
pub proof fn lemma_lex_less_at(a: Seq<char>, b: Seq<char>, k: int)
    requires
        common_prefix(a, b, k),
        k < a.len() && k < b.len() ==> a[k] != b[k],
    ensures
        lex_less(a, b) == (if k == a.len() {
            k < b.len()
        } else {
            k < b.len() && char_less(a[k], b[k])
        }),
{
    assert forall|j: int| j != k && #[trigger] common_prefix(a, b, j) implies !(if j == a.len() {
        j < b.len()
    } else {
        j < b.len() && char_less(a[j], b[j])
    }) by {
        if j < k {
            assert(a[j] == b[j]);
        } else {
            assert(k < a.len() && k < b.len());
            assert(a[k] == b[k]);
        }
    }
}

/// Whether `a` comes strictly before `b` in the lexicographic order.
pub fn chars_less(a: &Vec<char>, b: &Vec<char>) -> (r: bool)
    ensures
        r == lex_less(a@, b@),
{
    let k = common_prefix_len(a, b);
    proof {
        lemma_lex_less_at(a@, b@, k as int);
    }
    if k == a.len() {
        k < b.len()
    } else if k == b.len() {
        false
    } else {
        char_before(a[k], b[k])
    }
}

/// Whether `a` and `b` hold the same characters.
pub fn chars_equal(a: &Vec<char>, b: &Vec<char>) -> (r: bool)
    ensures
        r == (a@ == b@),
{
    let k = common_prefix_len(a, b);
    let r = k == a.len() && k == b.len();
    proof {
        if r {
            assert(a@ =~= b@);
        }
    }
    r
}

/// `needle` stands in `hay` at position `i`.
pub open spec fn occurs_at(needle: Seq<char>, hay: Seq<char>, i: int) -> bool {
    &&& 0 <= i
    &&& i + needle.len() <= hay.len()
    &&& hay.subrange(i, i + needle.len()) == needle
}

/// `needle` stands somewhere in `hay`.
pub open spec fn is_substring(needle: Seq<char>, hay: Seq<char>) -> bool {
    exists|i: int| occurs_at(needle, hay, i)
}

/// The empty string stands in every string.
pub proof fn lemma_empty_is_substring(needle: Seq<char>, hay: Seq<char>)
    requires
        needle.len() == 0,
    ensures
        is_substring(needle, hay),
{
    assert(hay.subrange(0, 0) =~= needle);
    assert(occurs_at(needle, hay, 0));
}

/// Whether `needle` stands in `hay` at position `i`.
fn matches_at(hay: &Vec<char>, needle: &Vec<char>, i: usize) -> (r: bool)
    requires
        i + needle.len() <= hay.len(),
    ensures
        r == occurs_at(needle@, hay@, i as int),
{
    let mut j: usize = 0;
    while j < needle.len()
        invariant
            j <= needle.len(),
            i + needle.len() <= hay.len(),
            forall|k: int| 0 <= k < j ==> hay@[i + k] == needle@[k],
        decreases needle.len() - j,
    {
        if hay[i + j] != needle[j] {
            proof {
                let found = hay@.subrange(i as int, i + needle@.len());
                assert(found[j as int] == hay@[i + j]);
            }
            return false;
        }
        j += 1;
    }
    assert(hay@.subrange(i as int, i + needle@.len()) =~= needle@);
    true
}

/// Whether `needle` stands somewhere in `hay`.
pub fn contains(hay: &Vec<char>, needle: &Vec<char>) -> (r: bool)
    ensures
        r == is_substring(needle@, hay@),
{
    if needle.len() > hay.len() {
        return false;
    }
    let last = hay.len() - needle.len();
    let mut i: usize = 0;
    loop
        invariant
            i <= last,
            last == hay.len() - needle.len(),
            forall|k: int| 0 <= k < i ==> !occurs_at(needle@, hay@, k),
        decreases last - i,
    {
        if matches_at(hay, needle, i) {
            return true;
        }
        if i == last {
            return false;
        }
        i += 1;
    }
}

/// Whether `a` and `b` hold the same characters.
pub fn str_equal(a: &str, b: &str) -> (r: bool)
    ensures
        r == (a@ == b@),
{
    let x = a.as_bytes();
    let y = b.as_bytes();
    proof {
        vstd::utf8::encode_utf8_decode_utf8(a@);
        vstd::utf8::encode_utf8_decode_utf8(b@);
    }
    if x.len() != y.len() {
        return false;
    }
    let mut i: usize = 0;
    while i < x.len()
        invariant
            i <= x.len(),
            x.len() == y.len(),
            x@ == a.spec_bytes(),
            y@ == b.spec_bytes(),
            forall|k: int| 0 <= k < i ==> x@[k] == y@[k],
        decreases x.len() - i,
    {
        if x[i] != y[i] {
            return false;
        }
        i += 1;
    }
    assert(x@ =~= y@);
    true
}

/// The position of the last `c` in `s`, or -1 where `s` holds none.
pub open spec fn last_index_of(s: Seq<char>, c: char) -> int
    decreases s.len(),
{
    if s.len() == 0 {
        -1
    } else if s.last() == c {
        s.len() - 1
    } else {
        last_index_of(s.drop_last(), c)
    }
}

/// `last_index_of` is the one position that holds `c` and has no `c` behind it.
pub proof fn lemma_last_index_of(s: Seq<char>, c: char, i: int)
    requires
        -1 <= i < s.len(),
        i >= 0 ==> s[i] == c,
        forall|j: int| i < j < s.len() ==> s[j] != c,
    ensures
        last_index_of(s, c) == i,
    decreases s.len(),
{
    if s.len() > 0 && s.last() != c {
        lemma_last_index_of(s.drop_last(), c, i);
    }
}

/// The position of the last `c` in `s`, if it holds one.
pub fn rfind_char(s: &Vec<char>, c: char) -> (r: Option<usize>)
    ensures
        match r {
            Some(i) => i < s.len() && last_index_of(s@, c) == i,
            None => last_index_of(s@, c) == -1,
        },
{
    let mut i: usize = s.len();
    while i > 0
        invariant
            i <= s.len(),
            forall|j: int| i <= j < s.len() ==> s@[j] != c,
        decreases i,
    {
        if s[i - 1] == c {
            proof {
                lemma_last_index_of(s@, c, i - 1);
            }
            return Some(i - 1);
        }
        i -= 1;
    }
    proof {
        lemma_last_index_of(s@, c, -1);
    }
    None
}

/// Which characters separate the words of a text.
#[derive(Clone, Copy, Debug, PartialEq, Eq, Structural)]
pub enum Whitespace {
    /// Space, tab, line feed, form feed and carriage return.
    Ascii,
    /// Every character with the Unicode property White_Space.
    Unicode,
}

/// `c` is one of the five ASCII whitespace characters.
pub open spec fn is_ascii_whitespace(c: char) -> bool {
    c == ' ' || c == '\t' || c == '\n' || c == '\u{c}' || c == '\r'
}

/// `c` has the Unicode property White_Space.
pub open spec fn is_whitespace(c: char) -> bool {
    let u = c as u32;
    ||| 0x09 <= u <= 0x0d
    ||| u == 0x20
    ||| u == 0x85
    ||| u == 0xa0
    ||| u == 0x1680
    ||| 0x2000 <= u <= 0x200a
    ||| u == 0x2028
    ||| u == 0x2029
    ||| u == 0x202f
    ||| u == 0x205f
    ||| u == 0x3000
}

/// `c` separates words under `kind`.
pub open spec fn is_space(c: char, kind: Whitespace) -> bool {
    match kind {
        Whitespace::Ascii => is_ascii_whitespace(c),
        Whitespace::Unicode => is_whitespace(c),
    }
}

/// Whether `c` separates words under `kind`.
pub fn is_space_char(c: char, kind: Whitespace) -> (r: bool)
    ensures
        r == is_space(c, kind),
{
    match kind {
        Whitespace::Ascii => c == ' ' || c == '\t' || c == '\n' || c == '\u{c}' || c == '\r',
        Whitespace::Unicode => {
            let u: u32 = c as u32;
            (0x09 <= u && u <= 0x0d) || u == 0x20 || u == 0x85 || u == 0xa0 || u == 0x1680 || (
            0x2000 <= u && u <= 0x200a) || u == 0x2028 || u == 0x2029 || u == 0x202f || u
                == 0x205f || u == 0x3000
        },
    }
}

/// The words of `s`: its longest runs of characters that are no separators, from
/// left to right. Reading `s` to its last character, a separator adds nothing, and
/// any other character extends the word that the character before it belongs to, or
/// starts a new word.
pub open spec fn words(s: Seq<char>, kind: Whitespace) -> Seq<Seq<char>>
    decreases s.len(),
{
    if s.len() == 0 {
        Seq::empty()
    } else {
        let before = words(s.drop_last(), kind);
        if is_space(s.last(), kind) {
            before
        } else if s.len() >= 2 && !is_space(s[s.len() - 2], kind) {
            before.drop_last().push(before.last().push(s.last()))
        } else {
            before.push(seq![s.last()])
        }
    }
}

/// Each of `spans` is a range of `s` that holds the part of the same number.
pub open spec fn are_spans_of(s: Seq<char>, spans: Seq<(usize, usize)>, parts: Seq<Seq<char>>) -> bool {
    &&& spans.len() == parts.len()
    &&& forall|k: int|
        0 <= k < spans.len() ==> {
            &&& (#[trigger] spans[k]).0 <= spans[k].1 <= s.len()
            &&& s.subrange(spans[k].0 as int, spans[k].1 as int) == parts[k]
        }
}

/// The ranges of `s` that hold the words of `s[from..to]`.
pub fn word_spans(s: &Vec<char>, from: usize, to: usize, kind: Whitespace) -> (spans: Vec<(usize, usize)>)
    requires
        from <= to <= s.len(),
    ensures
        are_spans_of(s@, spans@, words(s@.subrange(from as int, to as int), kind)),
{
    let mut spans: Vec<(usize, usize)> = Vec::new();
    let mut i: usize = from;
    while i < to
        invariant
            from <= i <= to <= s.len(),
            are_spans_of(s@, spans@, words(s@.subrange(from as int, i as int), kind)),
            i > from && !is_space(s@[i - 1], kind) ==> spans@.len() > 0 && spans@.last().1 == i,
        decreases to - i,
    {
        let c = s[i];
        proof {
            let t = s@.subrange(from as int, i + 1);
            assert(t.drop_last() =~= s@.subrange(from as int, i as int));
            assert(t.last() == c);
            if i > from {
                assert(t[t.len() - 2] == s@[i - 1]);
            }
        }
        if !is_space_char(c, kind) {
            if i > from && !is_space_char(s[i - 1], kind) {
                let last = spans.len() - 1;
                let start = spans[last].0;
                proof {
                    assert(s@.subrange(start as int, i + 1) =~= s@.subrange(
                        start as int,
                        i as int,
                    ).push(c));
                }
                spans.set(last, (start, i + 1));
            } else {
                proof {
                    assert(s@.subrange(i as int, i + 1) =~= seq![c]);
                }
                spans.push((i, i + 1));
            }
        }
        i += 1;
    }
    spans
}

/// `[a, b)` is a line of `s`: it starts the text or follows a line feed, holds no
/// line feed, and ends before a line feed or, not empty, with the text.
pub open spec fn is_line(s: Seq<char>, a: int, b: int) -> bool {
    &&& 0 <= a <= b <= s.len()
    &&& a == 0 || s[a - 1] == '\n'
    &&& forall|j: int| a <= j < b ==> s[j] != '\n'
    &&& if b == s.len() {
        a < b
    } else {
        s[b] == '\n'
    }
}

/// Where the text of the line `[a, b)` of `s` ends: a carriage return before the
/// line feed that ends the line is no part of it.
pub open spec fn line_text_end(s: Seq<char>, a: int, b: int) -> int {
    if b < s.len() && a < b && s[b - 1] == '\r' {
        b - 1
    } else {
        b
    }
}

/// The text of the line `[a, b)` of `s`.
pub open spec fn line_text(s: Seq<char>, a: int, b: int) -> Seq<char> {
    s.subrange(a, line_text_end(s, a, b))
}

/// The end of the line of `s` that starts at `a`, and the end of its text.
pub fn line_at(s: &Vec<char>, a: usize) -> (r: (usize, usize))
    requires
        a < s.len(),
        a == 0 || s[a - 1] == '\n',
    ensures
        is_line(s@, a as int, r.0 as int),
        r.1 == line_text_end(s@, a as int, r.0 as int),
        a <= r.1 <= r.0 <= s.len(),
{
    let mut b: usize = a;
    while b < s.len() && s[b] != '\n'
        invariant
            a <= b <= s.len(),
            forall|j: int| a <= j < b ==> s@[j] != '\n',
        decreases s.len() - b,
    {
        b += 1;
    }
    if b < s.len() && a < b && s[b - 1] == '\r' {
        (b, b - 1)
    } else {
        (b, b)
    }
}

/// A line that starts at `a` ends at one place only.
pub proof fn lemma_line_end_unique(s: Seq<char>, a: int, b: int, c: int)
    requires
        is_line(s, a, b),
        is_line(s, a, c),
    ensures
        b == c,
{
    if b < c {
        assert(s[b] != '\n');
    } else if c < b {
        assert(s[c] != '\n');
    }
}

/// The text of the first line of `s`, which has one unless it is empty.
pub open spec fn first_line(s: Seq<char>) -> Seq<char> {
    let end = choose|b: int| is_line(s, 0, b);
    line_text(s, 0, end)
}

} // verus!

//! Character-level text operations: every string is seen as the sequence of its characters.
use vstd::prelude::*;

verus! {

/// `String::push` appends one character at the end.
pub assume_specification[ String::push ](s: &mut String, c: char)
    ensures
        final(s)@ == old(s)@.push(c),
;

/// `==` on `str` holds exactly when the two strings hold the same characters.
pub assume_specification[ <str as PartialEq>::eq ](a: &str, b: &str) -> (r: bool)
    ensures
        r == (a@ == b@),
;

/// The view of an optional value.
pub open spec fn opt_view<T: View>(o: Option<T>) -> Option<T::V> {
    match o {
        Some(x) => Some(x@),
        None => None,
    }
}

/// The view of a result whose error is a text.
pub open spec fn result_view<T: View>(r: Result<T, String>) -> Result<T::V, Seq<char>> {
    match r {
        Ok(x) => Ok(x@),
        Err(e) => Err(e@),
    }
}

/// The views of a list of strings.
pub open spec fn texts_view(v: Seq<String>) -> Seq<Seq<char>> {
    v.map_values(|s: String| s@)
}

// ---------------------------------------------------------------------------
// Construction and comparison
// ---------------------------------------------------------------------------

/// Whether two strings hold the same characters.
pub fn same(a: &str, b: &str) -> (r: bool)
    ensures
        r == (a@ == b@),
{
    *a == *b
}

/// Whether an optional string is present and equal to `b`.
pub fn is_text(a: Option<&str>, b: &str) -> (r: bool)
    ensures
        r == (opt_view(a) == Some(b@)),
{
    match a {
        Some(a) => *a == *b,
        None => false,
    }
}

/// Whether two optional strings are both absent or both present and equal.
pub fn same_opt(a: Option<&str>, b: Option<&str>) -> (r: bool)
    ensures
        r == (opt_view(a) == opt_view(b)),
{
    match (a, b) {
        (Some(a), Some(b)) => *a == *b,
        (None, None) => true,
        _ => false,
    }
}

/// An owned copy.
pub fn owned(s: &str) -> (r: String)
    ensures
        r@ == s@,
{
    s.to_owned()
}

/// The characters of a string.
pub fn chars_of(s: &str) -> (r: Vec<char>)
    ensures
        r@ == s@,
{
    let mut out: Vec<char> = Vec::new();
    for c in it: s.chars()
        invariant
            out@ == it.seq().take(it.index() as int),
            it.seq() == s@,
    {
        out.push(c);
    }
    out
}

/// The string made of the characters at `from..to`.
pub fn string_between(cs: &Vec<char>, from: usize, to: usize) -> (r: String)
    requires
        from <= to <= cs.len(),
    ensures
        r@ == cs@.subrange(from as int, to as int),
{
    let mut out = String::new();
    let mut i: usize = from;
    while i < to
        invariant
            from <= i <= to <= cs.len(),
            out@ == cs@.subrange(from as int, i as int),
        decreases to - i,
    {
        out.push(cs[i]);
        i += 1;
        assert(out@ =~= cs@.subrange(from as int, i as int));
    }
    out
}

/// The string made of the given characters.
pub fn string_of(cs: &Vec<char>) -> (r: String)
    ensures
        r@ == cs@,
{
    let r = string_between(cs, 0, cs.len());
    assert(cs@.subrange(0, cs.len() as int) =~= cs@);
    r
}

/// Two strings one after the other.
pub fn concat2(a: &str, b: &str) -> (r: String)
    ensures
        r@ == a@ + b@,
{
    let mut out = a.to_owned();
    out.append(b);
    out
}

/// Three strings one after the other.
pub fn concat3(a: &str, b: &str, c: &str) -> (r: String)
    ensures
        r@ == a@ + b@ + c@,
{
    let mut out = a.to_owned();
    out.append(b);
    out.append(c);
    out
}

/// Whether the list holds the text.
pub fn contains_text(list: &Vec<String>, s: &str) -> (r: bool)
    ensures
        r == texts_view(list@).contains(s@),
{
    let mut i: usize = 0;
    while i < list.len()
        invariant
            i <= list.len(),
            forall|j: int| 0 <= j < i ==> (#[trigger] texts_view(list@)[j]) != s@,
        decreases list.len() - i,
    {
        if *list[i].as_str() == *s {
            assert(texts_view(list@)[i as int] == s@);
            return true;
        }
        i += 1;
    }
    false
}

/// Whether a text comes before another in the order of `str`: by the first differing
/// character, a proper prefix first.
pub open spec fn precedes(a: Seq<char>, b: Seq<char>) -> bool
    decreases a.len(),
{
    if b.len() == 0 {
        false
    } else if a.len() == 0 {
        true
    } else if a[0] != b[0] {
        a[0] < b[0]
    } else {
        precedes(a.subrange(1, a.len() as int), b.subrange(1, b.len() as int))
    }
}

proof fn lemma_precedes(a: Seq<char>, b: Seq<char>, k: int)
    requires
        0 <= k <= a.len(),
        k <= b.len(),
        forall|i: int| 0 <= i < k ==> a[i] == #[trigger] b[i],
        k < a.len() && k < b.len() ==> a[k] != b[k],
    ensures
        precedes(a, b) == (k < b.len() && (k == a.len() || a[k] < b[k])),
    decreases k,
{
    if k > 0 {
        let ra = a.subrange(1, a.len() as int);
        let rb = b.subrange(1, b.len() as int);
        assert(a[0] == b[0]);
        assert forall|i: int| 0 <= i < k - 1 implies ra[i] == #[trigger] rb[i] by {
            assert(a[i + 1] == b[i + 1]);
        }
        lemma_precedes(ra, rb, k - 1);
    }
}

/// Whether a text comes before another.
pub fn text_precedes(a: &str, b: &str) -> (r: bool)
    ensures
        r == precedes(a@, b@),
{
    let x = chars_of(a);
    let y = chars_of(b);
    let mut k: usize = 0;
    while k < x.len() && k < y.len() && x[k] == y[k]
        invariant
            k <= x.len(),
            k <= y.len(),
            forall|i: int| 0 <= i < k ==> x@[i] == #[trigger] y@[i],
        decreases x.len() - k,
    {
        k += 1;
    }
    proof {
        lemma_precedes(a@, b@, k as int);
    }
    k < y.len() && (k == x.len() || x[k] < y[k])
}

/// Of two different texts one comes first; none comes before itself.
pub proof fn lemma_precedes_total(a: Seq<char>, b: Seq<char>)
    ensures
        a == b <==> !precedes(a, b) && !precedes(b, a),
        !(precedes(a, b) && precedes(b, a)),
    decreases a.len(),
{
    if a.len() == 0 {
        if b.len() == 0 {
            assert(a =~= b);
        }
    } else if b.len() > 0 && a[0] == b[0] {
        let ra = a.subrange(1, a.len() as int);
        let rb = b.subrange(1, b.len() as int);
        lemma_precedes_total(ra, rb);
        if ra == rb {
            assert(a =~= seq![a[0]] + ra);
            assert(b =~= seq![b[0]] + rb);
        }
    }
}

/// The order of texts is transitive.
pub proof fn lemma_precedes_trans(a: Seq<char>, b: Seq<char>, c: Seq<char>)
    requires
        precedes(a, b),
        precedes(b, c),
    ensures
        precedes(a, c),
    decreases a.len(),
{
    if a.len() > 0 && a[0] == b[0] && b[0] == c[0] {
        lemma_precedes_trans(
            a.subrange(1, a.len() as int),
            b.subrange(1, b.len() as int),
            c.subrange(1, c.len() as int),
        );
    }
}

// ---------------------------------------------------------------------------
// White space
// ---------------------------------------------------------------------------

/// The characters with the Unicode `White_Space` property.
pub open spec fn is_white(c: char) -> bool {
    ||| '\u{9}' <= c <= '\u{d}'
    ||| c == ' '
    ||| c == '\u{85}'
    ||| c == '\u{a0}'
    ||| c == '\u{1680}'
    ||| '\u{2000}' <= c <= '\u{200a}'
    ||| c == '\u{2028}'
    ||| c == '\u{2029}'
    ||| c == '\u{202f}'
    ||| c == '\u{205f}'
    ||| c == '\u{3000}'
}

/// Whether a character is white space.
pub fn white(c: char) -> (r: bool)
    ensures
        r == is_white(c),
{
    ('\u{9}' <= c && c <= '\u{d}') || c == ' ' || c == '\u{85}' || c == '\u{a0}' || c == '\u{1680}'
        || ('\u{2000}' <= c && c <= '\u{200a}') || c == '\u{2028}' || c == '\u{2029}'
        || c == '\u{202f}' || c == '\u{205f}' || c == '\u{3000}'
}

/// The text without its leading white space.
pub open spec fn trim_start(s: Seq<char>) -> Seq<char>
    decreases s.len(),
{
    if s.len() > 0 && is_white(s[0]) {
        trim_start(s.subrange(1, s.len() as int))
    } else {
        s
    }
}

/// The text without its trailing white space.
pub open spec fn trim_end(s: Seq<char>) -> Seq<char>
    decreases s.len(),
{
    if s.len() > 0 && is_white(s.last()) {
        trim_end(s.drop_last())
    } else {
        s
    }
}

/// The text without leading and trailing white space.
pub open spec fn trimmed(s: Seq<char>) -> Seq<char> {
    trim_end(trim_start(s))
}

/// Whether a text holds nothing but white space.
pub open spec fn is_blank(s: Seq<char>) -> bool {
    trimmed(s).len() == 0
}

proof fn lemma_trim_start(s: Seq<char>, k: int)
    requires
        0 <= k <= s.len(),
        forall|i: int| 0 <= i < k ==> is_white(#[trigger] s[i]),
    ensures
        trim_start(s) == trim_start(s.subrange(k, s.len() as int)),
    decreases k,
{
    if k == 0 {
        assert(s.subrange(0, s.len() as int) =~= s);
    } else {
        let rest = s.subrange(1, s.len() as int);
        assert(is_white(s[0]));
        lemma_trim_start(rest, k - 1);
        assert(rest.subrange(k - 1, rest.len() as int) =~= s.subrange(k, s.len() as int));
    }
}

proof fn lemma_trim_end(s: Seq<char>, k: int)
    requires
        0 <= k <= s.len(),
        forall|i: int| k <= i < s.len() ==> is_white(#[trigger] s[i]),
    ensures
        trim_end(s) == trim_end(s.subrange(0, k)),
    decreases s.len() - k,
{
    if k == s.len() {
        assert(s.subrange(0, k) =~= s);
    } else {
        assert(is_white(s.last()));
        lemma_trim_end(s.drop_last(), k);
        assert(s.drop_last().subrange(0, k) =~= s.subrange(0, k));
    }
}

/// The text without leading and trailing white space.
pub fn trim(s: &str) -> (r: String)
    ensures
        r@ == trimmed(s@),
{
    let cs = chars_of(s);
    let mut from: usize = 0;
    while from < cs.len() && white(cs[from])
        invariant
            from <= cs.len(),
            forall|i: int| 0 <= i < from ==> is_white(#[trigger] cs@[i]),
        decreases cs.len() - from,
    {
        from += 1;
    }
    let ghost rest = cs@.subrange(from as int, cs.len() as int);
    proof {
        lemma_trim_start(cs@, from as int);
        if from < cs.len() {
            assert(rest[0] == cs@[from as int]);
        }
        assert(trim_start(rest) == rest);
    }
    let mut to: usize = cs.len();
    while to > from && white(cs[to - 1])
        invariant
            from <= to <= cs.len(),
            forall|i: int| to <= i < cs.len() ==> is_white(#[trigger] cs@[i]),
        decreases to,
    {
        to -= 1;
    }
    proof {
        lemma_trim_end(rest, to - from);
        assert(rest.subrange(0, to - from) =~= cs@.subrange(from as int, to as int));
        if to > from {
            assert(cs@.subrange(from as int, to as int).last() == cs@[to - 1]);
        }
    }
    string_between(&cs, from, to)
}

/// Whether a text holds nothing but white space.
pub fn blank(s: &str) -> (r: bool)
    ensures
        r == is_blank(s@),
{
    let t = trim(s);
    t.as_str().is_empty()
}

/// Trimming twice is trimming once.
pub proof fn trim_is_idempotent(s: Seq<char>)
    ensures
        trimmed(trimmed(s)) == trimmed(s),
{
    let a = trim_start(s);
    lemma_trim_start_head(s);
    lemma_trim_end_shape(a);
    let b = trim_end(a);
    if b.len() > 0 {
        assert(b[0] == a[0]);
    }
    assert(trim_start(b) == b);
    assert(trim_end(b) == b);
}

proof fn lemma_trim_start_head(s: Seq<char>)
    ensures
        trim_start(s).len() > 0 ==> !is_white(trim_start(s)[0]),
        trim_start(s).len() <= s.len(),
    decreases s.len(),
{
    if s.len() > 0 && is_white(s[0]) {
        lemma_trim_start_head(s.subrange(1, s.len() as int));
    }
}

proof fn lemma_trim_end_shape(s: Seq<char>)
    ensures
        trim_end(s).len() <= s.len(),
        trim_end(s) == s.subrange(0, trim_end(s).len() as int),
        trim_end(s).len() > 0 ==> !is_white(trim_end(s).last()),
    decreases s.len(),
{
    if s.len() > 0 && is_white(s.last()) {
        lemma_trim_end_shape(s.drop_last());
        assert(s.drop_last().subrange(0, trim_end(s).len() as int) =~= s.subrange(
            0,
            trim_end(s).len() as int,
        ));
    } else {
        assert(s.subrange(0, s.len() as int) =~= s);
    }
}

// ---------------------------------------------------------------------------
// Searching and splitting
// ---------------------------------------------------------------------------

/// The first position of a character, or the length where it does not occur.
pub open spec fn first_index(s: Seq<char>, c: char) -> int
    decreases s.len(),
{
    if s.len() == 0 || s[0] == c {
        0
    } else {
        1 + first_index(s.subrange(1, s.len() as int), c)
    }
}

pub proof fn lemma_first_index(s: Seq<char>, c: char, k: int)
    requires
        0 <= k <= s.len(),
        forall|i: int| 0 <= i < k ==> #[trigger] s[i] != c,
        k < s.len() ==> s[k] == c,
    ensures
        first_index(s, c) == k,
    decreases k,
{
    if k > 0 {
        let rest = s.subrange(1, s.len() as int);
        assert(s[0] != c);
        assert forall|i: int| 0 <= i < k - 1 implies #[trigger] rest[i] != c by {
            assert(s[i + 1] != c);
        }
        lemma_first_index(rest, c, k - 1);
    }
}

/// The part before the first occurrence of a character (all of it where there is none).
pub open spec fn before_char(s: Seq<char>, c: char) -> Seq<char> {
    s.subrange(0, first_index(s, c))
}

/// Splits at the first occurrence of a character, which is left out.
pub open spec fn split_once_at(s: Seq<char>, c: char) -> Option<(Seq<char>, Seq<char>)> {
    if s.contains(c) {
        Some(
            (
                s.subrange(0, first_index(s, c)),
                s.subrange(first_index(s, c) + 1, s.len() as int),
            ),
        )
    } else {
        None
    }
}

fn find_char(cs: &Vec<char>, c: char) -> (r: usize)
    ensures
        r <= cs.len(),
        r == first_index(cs@, c),
        r < cs.len() <==> cs@.contains(c),
        r < cs.len() ==> cs[r as int] == c,
{
    let mut i: usize = 0;
    while i < cs.len() && cs[i] != c
        invariant
            i <= cs.len(),
            forall|j: int| 0 <= j < i ==> #[trigger] cs@[j] != c,
        decreases cs.len() - i,
    {
        i += 1;
    }
    proof {
        lemma_first_index(cs@, c, i as int);
    }
    i
}

/// The part before the first occurrence of a character.
pub fn before(s: &str, c: char) -> (r: String)
    ensures
        r@ == before_char(s@, c),
{
    let cs = chars_of(s);
    let k: usize = find_char(&cs, c);
    string_between(&cs, 0, k)
}

/// Splits at the first occurrence of a character.
pub fn split_once(s: &str, c: char) -> (r: Option<(String, String)>)
    ensures
        (match r {
            Some(p) => Some((p.0@, p.1@)),
            None => None,
        }) == split_once_at(s@, c),
{
    let cs = chars_of(s);
    let k: usize = find_char(&cs, c);
    if k < cs.len() {
        Some((string_between(&cs, 0, k), string_between(&cs, k + 1, cs.len())))
    } else {
        None
    }
}

/// The last position of a character, or -1 where it does not occur.
pub open spec fn last_index(s: Seq<char>, c: char) -> int
    decreases s.len(),
{
    if s.len() == 0 {
        -1
    } else if s.last() == c {
        s.len() - 1
    } else {
        last_index(s.drop_last(), c)
    }
}

proof fn lemma_last_index(s: Seq<char>, c: char, k: int)
    requires
        -1 <= k < s.len(),
        k >= 0 ==> s[k] == c,
        forall|i: int| k < i < s.len() ==> #[trigger] s[i] != c,
    ensures
        last_index(s, c) == k,
    decreases s.len(),
{
    if s.len() > 0 && k < s.len() - 1 {
        assert(s.last() == s[s.len() - 1]);
        lemma_last_index(s.drop_last(), c, k);
    }
}

/// Splitting behind the last occurrence of a character.
pub proof fn lemma_rsplit_once(a: Seq<char>, c: char, b: Seq<char>)
    requires
        forall|i: int| 0 <= i < b.len() ==> #[trigger] b[i] != c,
    ensures
        rsplit_once_at(a + seq![c] + b, c) == Some((a, b)),
    decreases b.len(),
{
    let s = a + seq![c] + b;
    lemma_after_last(s, c);
    let k = last_index(s, c);
    assert(s[a.len() as int] == c);
    assert(k >= a.len());
    if k > a.len() {
        lemma_last_index_at(s, c);
        assert(s[k] == b[k - a.len() - 1]);
    }
    assert(s.subrange(0, k) =~= a);
    assert(s.subrange(k + 1, s.len() as int) =~= b);
}

proof fn lemma_last_index_at(s: Seq<char>, c: char)
    ensures
        last_index(s, c) >= 0 ==> last_index(s, c) < s.len() && s[last_index(s, c)] == c,
    decreases s.len(),
{
    if s.len() > 0 && s.last() != c {
        lemma_last_index_at(s.drop_last(), c);
    }
}

/// Whether a character is an ASCII letter or digit.
pub open spec fn is_ascii_alphanumeric(c: char) -> bool {
    'a' <= c <= 'z' || 'A' <= c <= 'Z' || '0' <= c <= '9'
}

/// How many bytes a text takes in UTF-8.
pub open spec fn byte_length(s: Seq<char>) -> nat {
    vstd::utf8::encode_utf8(s).len()
}

/// Counts the bytes that a text takes in UTF-8.
pub fn byte_count(s: &str) -> (r: usize)
    ensures
        r == byte_length(s@),
{
    s.as_bytes().len()
}

/// The part after the last occurrence of a character does not hold it.
pub proof fn lemma_after_last(s: Seq<char>, c: char)
    ensures
        -1 <= last_index(s, c) < s.len(),
        forall|i: int| last_index(s, c) < i < s.len() ==> #[trigger] s[i] != c,
        forall|i: int|
            0 <= i < after_last_char(s, c).len() ==> #[trigger] after_last_char(s, c)[i] != c,
    decreases s.len(),
{
    if s.len() > 0 && s.last() != c {
        lemma_after_last(s.drop_last(), c);
        assert forall|i: int| last_index(s, c) < i < s.len() implies #[trigger] s[i] != c by {
            if i < s.len() - 1 {
                assert(s.drop_last()[i] == s[i]);
            }
        }
    }
    let t = after_last_char(s, c);
    assert forall|i: int| 0 <= i < t.len() implies #[trigger] t[i] != c by {
        assert(t[i] == s[last_index(s, c) + 1 + i]);
    }
}

/// The part after the last occurrence of a character (all of it where there is none).
pub open spec fn after_last_char(s: Seq<char>, c: char) -> Seq<char> {
    s.subrange(last_index(s, c) + 1, s.len() as int)
}

/// Splits at the last occurrence of a character, which is left out.
pub open spec fn rsplit_once_at(s: Seq<char>, c: char) -> Option<(Seq<char>, Seq<char>)> {
    let k = last_index(s, c);
    if k < 0 {
        None
    } else {
        Some((s.subrange(0, k), s.subrange(k + 1, s.len() as int)))
    }
}

fn find_last(cs: &Vec<char>, c: char) -> (r: usize)
    ensures
        r <= cs.len(),
        r as int == last_index(cs@, c) + 1,
{
    let mut i: usize = cs.len();
    while i > 0 && cs[i - 1] != c
        invariant
            i <= cs.len(),
            forall|j: int| i <= j < cs.len() ==> #[trigger] cs@[j] != c,
        decreases i,
    {
        i -= 1;
    }
    proof {
        lemma_last_index(cs@, c, i as int - 1);
    }
    i
}

/// The part after the last occurrence of a character.
pub fn after_last(s: &str, c: char) -> (r: String)
    ensures
        r@ == after_last_char(s@, c),
{
    let cs = chars_of(s);
    let k: usize = find_last(&cs, c);
    string_between(&cs, k, cs.len())
}

/// Splits at the last occurrence of a character.
pub fn rsplit_once(s: &str, c: char) -> (r: Option<(String, String)>)
    ensures
        (match r {
            Some(p) => Some((p.0@, p.1@)),
            None => None,
        }) == rsplit_once_at(s@, c),
{
    let cs = chars_of(s);
    let k: usize = find_last(&cs, c);
    if k == 0 {
        None
    } else {
        Some((string_between(&cs, 0, k - 1), string_between(&cs, k, cs.len())))
    }
}

/// Whether a text begins with another.
pub open spec fn begins_with(s: Seq<char>, p: Seq<char>) -> bool {
    p.len() <= s.len() && s.subrange(0, p.len() as int) == p
}

/// Whether a text ends with another.
pub open spec fn finishes_with(s: Seq<char>, p: Seq<char>) -> bool {
    p.len() <= s.len() && s.subrange(s.len() - p.len(), s.len() as int) == p
}

/// Whether a text occurs at a position of another.
pub open spec fn occurs_at(s: Seq<char>, p: Seq<char>, at: int) -> bool {
    0 <= at && at + p.len() <= s.len() && s.subrange(at, at + p.len()) == p
}

/// Whether a text occurs anywhere in another.
pub open spec fn occurs_in(s: Seq<char>, p: Seq<char>) -> bool {
    exists|at: int| occurs_at(s, p, at)
}

/// Whether `p` occurs in `s` at `at`.
pub fn matches_at(s: &Vec<char>, p: &Vec<char>, at: usize) -> (r: bool)
    requires
        at <= s.len(),
    ensures
        r == occurs_at(s@, p@, at as int),
{
    if s.len() - at < p.len() {
        return false;
    }
    let mut i: usize = 0;
    while i < p.len()
        invariant
            i <= p.len(),
            at + p.len() <= s.len(),
            forall|j: int| 0 <= j < i ==> s@[at + j] == #[trigger] p@[j],
        decreases p.len() - i,
    {
        if s[at + i] != p[i] {
            assert(s@.subrange(at as int, at + p.len())[i as int] != p@[i as int]);
            return false;
        }
        i += 1;
    }
    assert(s@.subrange(at as int, at + p.len()) =~= p@);
    true
}

/// Whether a text begins with another.
pub fn starts_with(s: &str, p: &str) -> (r: bool)
    ensures
        r == begins_with(s@, p@),
{
    matches_at(&chars_of(s), &chars_of(p), 0)
}

/// Whether a text ends with another.
pub fn ends_with(s: &str, p: &str) -> (r: bool)
    ensures
        r == finishes_with(s@, p@),
{
    let cs = chars_of(s);
    let ps = chars_of(p);
    if cs.len() < ps.len() {
        return false;
    }
    matches_at(&cs, &ps, cs.len() - ps.len())
}

/// The first position at which `p` occurs in `s`.
pub open spec fn is_first_occurrence(s: Seq<char>, p: Seq<char>, at: int) -> bool {
    &&& occurs_at(s, p, at)
    &&& forall|k: int| 0 <= k < at ==> !occurs_at(s, p, k)
}

/// The first position of `p` in `s` from `from` on.
pub fn find_from(s: &Vec<char>, p: &Vec<char>, from: usize) -> (r: Option<usize>)
    requires
        from <= s.len(),
    ensures
        match r {
            Some(at) => from <= at && at + p.len() <= s.len() && occurs_at(s@, p@, at as int)
                && forall|k: int| from <= k < at ==> !occurs_at(s@, p@, k),
            None => forall|k: int| from <= k ==> !occurs_at(s@, p@, k),
        },
{
    let mut at: usize = from;
    loop
        invariant
            from <= at <= s.len(),
            forall|k: int| from <= k < at ==> !occurs_at(s@, p@, k),
        decreases s.len() - at,
    {
        if matches_at(s, p, at) {
            return Some(at);
        }
        if at == s.len() {
            assert forall|k: int| from <= k implies !occurs_at(s@, p@, k) by {
                if k > at {
                    assert(k + p.len() > s.len());
                }
            }
            return None;
        }
        at += 1;
    }
}

/// The first position at which a text occurs in another.
pub open spec fn first_at(s: Seq<char>, p: Seq<char>) -> Option<int> {
    if occurs_in(s, p) {
        Some(choose|at: int| is_first_occurrence(s, p, at))
    } else {
        None
    }
}

/// The first position is the only one before which there is none.
pub proof fn lemma_first_at(s: Seq<char>, p: Seq<char>, at: int)
    requires
        is_first_occurrence(s, p, at),
    ensures
        first_at(s, p) == Some(at),
{
    assert(occurs_at(s, p, at));
    let found = choose|k: int| is_first_occurrence(s, p, k);
    assert(is_first_occurrence(s, p, found));
    if found < at {
        assert(!occurs_at(s, p, found));
    } else if at < found {
        assert(!occurs_at(s, p, at));
    }
}

/// The first position at which a text occurs in another.
pub fn find(s: &Vec<char>, p: &Vec<char>) -> (r: Option<usize>)
    ensures
        (match r {
            Some(at) => Some(at as int),
            None => None,
        }) == first_at(s@, p@),
        r matches Some(at) ==> at + p.len() <= s.len(),
{
    let found: Option<usize> = find_from(s, p, 0);
    match found {
        Some(at) => {
            proof {
                assert(is_first_occurrence(s@, p@, at as int));
                lemma_first_at(s@, p@, at as int);
            }
            Some(at)
        },
        None => None,
    }
}

/// Whether a text occurs anywhere in another.
pub fn contains(s: &str, p: &str) -> (r: bool)
    ensures
        r == occurs_in(s@, p@),
{
    let found: Option<usize> = find_from(&chars_of(s), &chars_of(p), 0);
    match found {
        Some(at) => {
            assert(occurs_at(s@, p@, at as int));
            true
        },
        None => false,
    }
}

// ---------------------------------------------------------------------------
// ASCII case
// ---------------------------------------------------------------------------

/// A character with an ASCII capital replaced by its small letter.
pub open spec fn lower_char(c: char) -> char {
    if 'A' <= c <= 'Z' {
        ((c as u8) + 32) as u8 as char
    } else {
        c
    }
}

/// A text with its ASCII capitals replaced by small letters.
pub open spec fn lowered(s: Seq<char>) -> Seq<char> {
    s.map_values(|c: char| lower_char(c))
}

fn lower(c: char) -> (r: char)
    ensures
        r == lower_char(c),
{
    if 'A' <= c && c <= 'Z' {
        ((c as u8) + 32) as char
    } else {
        c
    }
}

/// A text with its ASCII capitals replaced by small letters.
pub fn to_ascii_lowercase(s: &str) -> (r: String)
    ensures
        r@ == lowered(s@),
{
    let cs = chars_of(s);
    let mut out = String::new();
    let mut i: usize = 0;
    while i < cs.len()
        invariant
            i <= cs.len(),
            out@ == lowered(cs@.take(i as int)),
        decreases cs.len() - i,
    {
        out.push(lower(cs[i]));
        i += 1;
        assert(out@ =~= lowered(cs@.take(i as int)));
    }
    assert(cs@.take(i as int) =~= cs@);
    out
}

/// Whether two texts are equal when ASCII case is left out of account.
pub fn eq_ignore_ascii_case(a: &str, b: &str) -> (r: bool)
    ensures
        r == (lowered(a@) == lowered(b@)),
{
    let a = to_ascii_lowercase(a);
    let b = to_ascii_lowercase(b);
    *a.as_str() == *b.as_str()
}

// ---------------------------------------------------------------------------
// Decimal numbers
// ---------------------------------------------------------------------------

/// The decimal digit for a number below ten.
pub open spec fn digit_char(d: nat) -> char {
    (('0' as u8) + d) as u8 as char
}

/// Whether a character is a decimal digit.
pub open spec fn is_digit(c: char) -> bool {
    '0' <= c <= '9'
}

/// The number that a decimal digit stands for.
pub open spec fn digit_value(c: char) -> nat {
    ((c as u8) - ('0' as u8)) as nat
}

/// The decimal digits of a number, without leading zeros.
pub open spec fn decimal(n: nat) -> Seq<char>
    decreases n,
{
    if n < 10 {
        seq![digit_char(n)]
    } else {
        decimal(n / 10).push(digit_char(n % 10))
    }
}

/// The decimal form of a signed number.
pub open spec fn decimal_int(n: int) -> Seq<char> {
    if n < 0 {
        seq!['-'] + decimal((-n) as nat)
    } else {
        decimal(n as nat)
    }
}

/// Whether a text is made of one or more decimal digits.
pub open spec fn all_digits(s: Seq<char>) -> bool {
    s.len() > 0 && forall|i: int| 0 <= i < s.len() ==> is_digit(#[trigger] s[i])
}

/// The number that a run of decimal digits stands for.
pub open spec fn digits_value(s: Seq<char>) -> nat
    decreases s.len(),
{
    if s.len() == 0 {
        0
    } else {
        digits_value(s.drop_last()) * 10 + digit_value(s.last())
    }
}

/// The digits of a number text after an optional plus sign.
pub open spec fn unsigned_digits(s: Seq<char>) -> Seq<char> {
    if s.len() > 0 && s[0] == '+' {
        s.subrange(1, s.len() as int)
    } else {
        s
    }
}

/// The number written in a text with an optional plus sign, where it is at most `max`.
pub open spec fn parse_unsigned(s: Seq<char>, max: nat) -> Option<nat> {
    let d = unsigned_digits(s);
    if all_digits(d) && digits_value(d) <= max {
        Some(digits_value(d))
    } else {
        None
    }
}

proof fn lemma_digits_prefix(s: Seq<char>, k: int)
    requires
        0 <= k <= s.len(),
    ensures
        digits_value(s.take(k)) <= digits_value(s),
    decreases s.len(),
{
    if k == s.len() {
        assert(s.take(k) =~= s);
    } else {
        lemma_digits_prefix(s.drop_last(), k);
        assert(s.drop_last().take(k) =~= s.take(k));
    }
}

/// Reads an unsigned number of at most `max`, with an optional plus sign.
pub fn parse_u128_upto(s: &str, max: u128) -> (r: Option<u128>)
    ensures
        (match r {
            Some(v) => Some(v as nat),
            None => None,
        }) == parse_unsigned(s@, max as nat),
{
    let cs = chars_of(s);
    let start: usize = if cs.len() > 0 && cs[0] == '+' {
        1
    } else {
        0
    };
    let ghost d = unsigned_digits(s@);
    assert(d =~= cs@.subrange(start as int, cs.len() as int));
    if start == cs.len() {
        return None;
    }
    let mut value: u128 = 0;
    let mut i: usize = start;
    while i < cs.len()
        invariant
            start <= i <= cs.len(),
            d == cs@.subrange(start as int, cs.len() as int),
            value == digits_value(d.take(i - start)),
            value <= max,
            forall|j: int| 0 <= j < i - start ==> is_digit(#[trigger] d[j]),
            d == unsigned_digits(s@),
        decreases cs.len() - i,
    {
        let c = cs[i];
        assert(d[i - start] == c);
        if !('0' <= c && c <= '9') {
            assert(!is_digit(d[i - start]));
            return None;
        }
        let digit: u128 = ((c as u8) - ('0' as u8)) as u128;
        let ghost next = d.take(i - start + 1);
        proof {
            assert(next.drop_last() =~= d.take(i - start));
            assert(next.last() == c);
            lemma_digits_prefix(d, i - start + 1);
        }
        if value > max / 10 || (value == max / 10 && digit > max % 10) {
            assert(digits_value(next) == value * 10 + digit);
            assert(value * 10 + digit > max);
            return None;
        }
        assert(value * 10 + digit <= max);
        value = value * 10 + digit;
        i += 1;
    }
    assert(d.take(i - start) =~= d);
    Some(value)
}

/// Reads a `u32`, with an optional plus sign.
pub fn parse_u32(s: &str) -> (r: Option<u32>)
    ensures
        (match r {
            Some(v) => Some(v as nat),
            None => None,
        }) == parse_unsigned(s@, u32::MAX as nat),
{
    let found: Option<u128> = parse_u128_upto(s, 0xffff_ffffu128);
    match found {
        Some(v) => Some(v as u32),
        None => None,
    }
}

/// The decimal digits of a long number.
pub fn decimal_u128(n: u128) -> (r: String)
    ensures
        r@ == decimal(n as nat),
    decreases n,
{
    if n < 10 {
        let mut out = String::new();
        out.push((('0' as u8) + (n as u8)) as char);
        assert(out@ =~= decimal(n as nat));
        out
    } else {
        let mut out = decimal_u128(n / 10);
        out.push((('0' as u8) + ((n % 10) as u8)) as char);
        out
    }
}

/// The decimal digits of a number.
pub fn decimal_u64(n: u64) -> (r: String)
    ensures
        r@ == decimal(n as nat),
    decreases n,
{
    if n < 10 {
        let mut out = String::new();
        out.push((('0' as u8) + (n as u8)) as char);
        assert(out@ =~= decimal(n as nat));
        out
    } else {
        let mut out = decimal_u64(n / 10);
        out.push((('0' as u8) + ((n % 10) as u8)) as char);
        out
    }
}

/// The decimal form of a signed number.
pub fn decimal_i64(n: i64) -> (r: String)
    ensures
        r@ == decimal_int(n as int),
{
    if n < 0 {
        let mut out = String::new();
        out.push('-');
        let magnitude: u64 = (0i128 - (n as i128)) as u64;
        out.append(decimal_u64(magnitude).as_str());
        assert(out@ =~= seq!['-'] + decimal((-n) as nat));
        out
    } else {
        decimal_u64(n as u64)
    }
}

/// Ten to a power.
pub open spec fn pow10(k: nat) -> nat
    decreases k,
{
    if k == 0 {
        1
    } else {
        10 * pow10((k - 1) as nat)
    }
}

/// The decimal form of a number reads back as the number.
pub proof fn decimal_reads_back(n: nat)
    ensures
        all_digits(decimal(n)),
        digits_value(decimal(n)) == n,
    decreases n,
{
    if n < 10 {
        let s = seq![digit_char(n)];
        assert(s.drop_last() =~= Seq::<char>::empty());
        assert(digits_value(s.drop_last()) == 0);
        assert(decimal(n) == s);
        assert(s.last() == digit_char(n));
        assert forall|i: int| 0 <= i < s.len() implies is_digit(#[trigger] s[i]) by {
            assert(s[i] == digit_char(n));
        }
    } else {
        decimal_reads_back(n / 10);
        let head = decimal(n / 10);
        let s = head.push(digit_char(n % 10));
        assert(s.drop_last() =~= head);
        assert forall|i: int| 0 <= i < s.len() implies is_digit(#[trigger] s[i]) by {
            if i < head.len() {
                assert(s[i] == head[i]);
            }
        }
    }
}

/// A number below ten to the k has at most k digits.
pub proof fn lemma_decimal_len(n: nat, k: nat)
    requires
        k > 0,
        n < pow10(k),
    ensures
        1 <= decimal(n).len() <= k,
    decreases k,
{
    if n >= 10 {
        if k == 1 {
            assert(pow10(1) == 10 * pow10(0));
            assert(pow10(0) == 1);
        } else {
            lemma_decimal_len(n / 10, (k - 1) as nat);
        }
    }
}

/// A text of digits is read as the number that they stand for.
pub proof fn lemma_parse_digits(s: Seq<char>, max: nat)
    requires
        all_digits(s),
        digits_value(s) <= max,
    ensures
        parse_unsigned(s, max) == Some(digits_value(s)),
{
    assert(is_digit(s[0]));
    assert(unsigned_digits(s) == s);
}

/// A text that neither begins nor ends with white space is trimmed already.
pub proof fn lemma_trimmed_fixed(s: Seq<char>)
    requires
        s.len() > 0 ==> !is_white(s[0]) && !is_white(s.last()),
    ensures
        trimmed(s) == s,
{
}

/// A text that does not hold a character is all before it.
pub proof fn lemma_before_absent(s: Seq<char>, c: char)
    requires
        forall|i: int| 0 <= i < s.len() ==> #[trigger] s[i] != c,
    ensures
        before_char(s, c) == s,
{
    lemma_first_index(s, c, s.len() as int);
    assert(s.subrange(0, s.len() as int) =~= s);
}

/// Two texts around a character that the first does not hold are parted at it.
pub proof fn lemma_split_once(a: Seq<char>, c: char, b: Seq<char>)
    requires
        forall|i: int| 0 <= i < a.len() ==> #[trigger] a[i] != c,
    ensures
        split_once_at(a + seq![c] + b, c) == Some((a, b)),
{
    let s = a + seq![c] + b;
    assert(s[a.len() as int] == c);
    assert forall|i: int| 0 <= i < a.len() implies #[trigger] s[i] != c by {
        assert(s[i] == a[i]);
    }
    lemma_first_index(s, c, a.len() as int);
    assert(s.contains(c));
    assert(s.subrange(0, a.len() as int) =~= a);
    assert(s.subrange(a.len() as int + 1, s.len() as int) =~= b);
}

} // verus!

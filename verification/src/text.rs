//! Text utilities over character sequences.
use vstd::prelude::*;

verus! {

broadcast use vstd::string::axiom_spec_iter;

/// The characters of a string, in order.
pub fn chars_of(s: &str) -> (r: Vec<char>)
    ensures
        r@ == s@,
{
    let mut r: Vec<char> = Vec::new();
    for c in it: s.chars()
        invariant
            it.seq() == s@,
            r@ == it.seq().take(it.index() as int),
    {
        r.push(c);
    }
    r
}


/// A string made of the given characters, in order.
#[verifier::external_body]
pub(crate) fn string_of(chars: &[char]) -> (r: String)
    ensures
        r@ == chars@,
{
    chars.iter().collect()
}

/// `needle` occurs in `hay` starting at character index `i`.
pub open spec fn occurs_at(hay: Seq<char>, needle: Seq<char>, i: int) -> bool {
    0 <= i && i + needle.len() <= hay.len() && hay.subrange(i, i + needle.len()) == needle
}

/// The first index at or after `start` where `needle` occurs in `hay`.
pub open spec fn find_from(hay: Seq<char>, needle: Seq<char>, start: int) -> Option<int>
    decreases hay.len() + 1 - start,
{
    if start < 0 || start + needle.len() > hay.len() {
        None
    } else if occurs_at(hay, needle, start) {
        Some(start)
    } else {
        find_from(hay, needle, start + 1)
    }
}

/// The first index where `needle` occurs in `hay`.
pub open spec fn find_first(hay: Seq<char>, needle: Seq<char>) -> Option<int> {
    find_from(hay, needle, 0)
}

/// `needle` occurs somewhere in `hay`.
pub open spec fn contains_seq(hay: Seq<char>, needle: Seq<char>) -> bool {
    find_first(hay, needle) is Some
}

/// What `find_from` returns is the first occurrence at or after `start`.
pub proof fn lemma_find_from(hay: Seq<char>, needle: Seq<char>, start: int)
    requires
        0 <= start,
    ensures
        match find_from(hay, needle, start) {
            Some(i) => start <= i && occurs_at(hay, needle, i) && forall|j: int|
                start <= j < i ==> !occurs_at(hay, needle, j),
            None => forall|j: int| start <= j ==> !occurs_at(hay, needle, j),
        },
    decreases hay.len() + 1 - start,
{
    if start + needle.len() > hay.len() {
    } else if occurs_at(hay, needle, start) {
    } else {
        lemma_find_from(hay, needle, start + 1);
    }
}

/// `needle` occurs in `hay` at index `i`.
fn matches_at(hay: &[char], needle: &[char], i: usize) -> (r: bool)
    requires
        i + needle@.len() <= hay@.len(),
    ensures
        r == occurs_at(hay@, needle@, i as int),
{
    let n = needle.len();
    let h = hay.len();
    let mut k: usize = 0;
    while k < n
        invariant
            n == needle@.len(),
            h == hay@.len(),
            i + n <= hay@.len(),
            k <= n,
            i + k <= hay@.len(),
            forall|t: int| 0 <= t < k ==> hay@[i + t] == needle@[t],
        decreases n - k,
    {
        if hay[i + k] != needle[k] {
            assert(hay@.subrange(i as int, i + n)[k as int] != needle@[k as int]);
            return false;
        }
        k = k + 1;
    }
    assert(hay@.subrange(i as int, i + n) =~= needle@);
    true
}

/// The first character index where `needle` occurs in `hay`.
pub fn find(hay: &[char], needle: &[char]) -> (r: Option<usize>)
    ensures
        r matches Some(i) ==> find_first(hay@, needle@) == Some(i as int) && i + needle@.len()
            <= hay@.len(),
        r is None ==> find_first(hay@, needle@) is None,
{
    proof {
        lemma_find_from(hay@, needle@, 0);
    }
    let h = hay.len();
    let n = needle.len();
    if n > h {
        return None;
    }
    let last = h - n;
    let mut i: usize = 0;
    loop
        invariant
            h == hay@.len(),
            n == needle@.len(),
            last == h - n,
            i <= last,
            find_first(hay@, needle@) == find_from(hay@, needle@, i as int),
        decreases last - i,
    {
        if matches_at(hay, needle, i) {
            return Some(i);
        }
        if i == last {
            assert(find_from(hay@, needle@, i + 1) is None);
            return None;
        }
        i = i + 1;
    }
}

/// `needle` occurs somewhere in `hay`.
pub fn contains(hay: &[char], needle: &[char]) -> (r: bool)
    ensures
        r == contains_seq(hay@, needle@),
{
    find(hay, needle).is_some()
}

/// The Unicode `White_Space` property, as `char::is_whitespace` decides it.
pub open spec fn is_whitespace_char(c: char) -> bool {
    let v = c as u32;
    ||| 0x09 <= v <= 0x0d
    ||| v == 0x20
    ||| v == 0x85
    ||| v == 0xa0
    ||| v == 0x1680
    ||| 0x2000 <= v <= 0x200a
    ||| v == 0x2028
    ||| v == 0x2029
    ||| v == 0x202f
    ||| v == 0x205f
    ||| v == 0x3000
}

/// Whether `c` is white space (the Unicode `White_Space` property).
pub fn is_whitespace(c: char) -> (r: bool)
    ensures
        r == is_whitespace_char(c),
{
    let v = c as u32;
    (0x09 <= v && v <= 0x0d) || v == 0x20 || v == 0x85 || v == 0xa0 || v == 0x1680 || (0x2000
        <= v && v <= 0x200a) || v == 0x2028 || v == 0x2029 || v == 0x202f || v == 0x205f || v
        == 0x3000
}

/// The code of the ASCII lower-case form of a character; other characters keep their code.
pub open spec fn ascii_lower(c: char) -> u32 {
    if 'A' <= c <= 'Z' {
        ((c as u32) + 32) as u32
    } else {
        c as u32
    }
}

/// Two strings are equal when ASCII letters are compared without regard to case.
pub open spec fn eq_ignore_ascii_case_spec(a: Seq<char>, b: Seq<char>) -> bool {
    a.len() == b.len() && forall|i: int| 0 <= i < a.len() ==> ascii_lower(a[i]) == ascii_lower(b[i])
}

fn ascii_lower_exec(c: char) -> (r: u32)
    ensures
        r == ascii_lower(c),
{
    if 'A' <= c && c <= 'Z' {
        (c as u32) + 32
    } else {
        c as u32
    }
}

/// Compares two strings, ignoring the case of ASCII letters.
pub fn eq_ignore_ascii_case(a: &[char], b: &[char]) -> (r: bool)
    ensures
        r == eq_ignore_ascii_case_spec(a@, b@),
{
    if a.len() != b.len() {
        return false;
    }
    let n = a.len();
    let mut i: usize = 0;
    while i < n
        invariant
            n == a@.len(),
            n == b@.len(),
            i <= n,
            forall|k: int| 0 <= k < i ==> ascii_lower(a@[k]) == ascii_lower(b@[k]),
        decreases n - i,
    {
        if ascii_lower_exec(a[i]) != ascii_lower_exec(b[i]) {
            return false;
        }
        i = i + 1;
    }
    true
}


/// Whether a character is alphabetic: the Unicode `Alphabetic` property.
pub uninterp spec fn is_alphabetic_char(c: char) -> bool;

/// `char::is_alphabetic`. The contract claims only that the answer is the
/// value of `is_alphabetic_char` on the character: a function of the
/// character alone, fixed by the Unicode tables of the standard library.
#[verifier::external_body]
fn is_alphabetic(c: char) -> (r: bool)
    ensures
        r == is_alphabetic_char(c),
{
    c.is_alphabetic()
}

/// The classes of characters that the trimming functions strip.
#[derive(Clone, Copy, PartialEq, Eq, Structural)]
pub enum CharClass {
    /// White space, as `char::is_whitespace` decides it.
    Whitespace,
    /// Anything but white space.
    NonWhitespace,
    /// Neither alphabetic nor a full stop.
    NameJunk,
}

/// Whether `c` belongs to the class.
pub open spec fn in_class(cls: CharClass, c: char) -> bool {
    match cls {
        CharClass::Whitespace => is_whitespace_char(c),
        CharClass::NonWhitespace => !is_whitespace_char(c),
        CharClass::NameJunk => !is_alphabetic_char(c) && c != '.',
    }
}

/// Whether `c` belongs to the class.
pub fn in_class_exec(cls: CharClass, c: char) -> (r: bool)
    ensures
        r == in_class(cls, c),
{
    match cls {
        CharClass::Whitespace => is_whitespace(c),
        CharClass::NonWhitespace => !is_whitespace(c),
        CharClass::NameJunk => !is_alphabetic(c) && c != '.',
    }
}

/// The number of characters of the class at the start of `s`.
pub open spec fn leading(s: Seq<char>, cls: CharClass) -> nat
    decreases s.len(),
{
    if s.len() > 0 && in_class(cls, s[0]) {
        1 + leading(s.drop_first(), cls)
    } else {
        0
    }
}

/// The number of characters of the class at the end of `s`.
pub open spec fn trailing(s: Seq<char>, cls: CharClass) -> nat
    decreases s.len(),
{
    if s.len() > 0 && in_class(cls, s.last()) {
        1 + trailing(s.drop_last(), cls)
    } else {
        0
    }
}

/// `s` without the characters of the class at its start and at its end
/// (what `str::trim_matches` gives for that class).
pub open spec fn strip(s: Seq<char>, cls: CharClass) -> Seq<char> {
    let t = s.skip(leading(s, cls) as int);
    t.take(t.len() - trailing(t, cls))
}

/// `s` without leading and trailing white space (what `str::trim` gives).
pub open spec fn trim_spec(s: Seq<char>) -> Seq<char> {
    strip(s, CharClass::Whitespace)
}

/// The first run of non-white-space characters of `s`, or the empty sequence
/// (what `s.split_whitespace().next().unwrap_or("")` gives).
pub open spec fn first_word(s: Seq<char>) -> Seq<char> {
    let t = s.skip(leading(s, CharClass::Whitespace) as int);
    t.take(leading(t, CharClass::NonWhitespace) as int)
}

proof fn lemma_leading_stop(s: Seq<char>, cls: CharClass)
    ensures
        leading(s, cls) <= s.len(),
        leading(s, cls) < s.len() ==> !in_class(cls, s[leading(s, cls) as int]),
    decreases s.len(),
{
    if s.len() > 0 && in_class(cls, s[0]) {
        lemma_leading_stop(s.drop_first(), cls);
        if leading(s, cls) < s.len() {
            assert(s.drop_first()[leading(s.drop_first(), cls) as int] == s[leading(s, cls) as int]);
        }
    }
}

proof fn lemma_trailing_stop(s: Seq<char>, cls: CharClass)
    ensures
        trailing(s, cls) <= s.len(),
        trailing(s, cls) < s.len() ==> !in_class(cls, s[s.len() - 1 - trailing(s, cls)]),
    decreases s.len(),
{
    if s.len() > 0 && in_class(cls, s.last()) {
        lemma_trailing_stop(s.drop_last(), cls);
        if trailing(s, cls) < s.len() {
            assert(s.drop_last()[s.drop_last().len() - 1 - trailing(s.drop_last(), cls)] == s[s.len()
                - 1 - trailing(s, cls)]);
        }
    }
}

/// The characters counted by `leading` all belong to the class.
pub proof fn lemma_leading_in_class(s: Seq<char>, cls: CharClass)
    ensures
        forall|i: int| 0 <= i < leading(s, cls) ==> in_class(cls, #[trigger] s[i]),
    decreases s.len(),
{
    lemma_leading_stop(s, cls);
    if s.len() > 0 && in_class(cls, s[0]) {
        lemma_leading_in_class(s.drop_first(), cls);
        assert forall|i: int| 0 <= i < leading(s, cls) implies in_class(cls, #[trigger] s[i]) by {
            if i > 0 {
                assert(s[i] == s.drop_first()[i - 1]);
            }
        }
    }
}

/// The first word of a text holds no white space.
pub proof fn lemma_first_word_has_no_space(s: Seq<char>)
    ensures
        forall|i: int| 0 <= i < first_word(s).len() ==> !is_whitespace_char(#[trigger] first_word(s)[i]),
{
    let t = s.skip(leading(s, CharClass::Whitespace) as int);
    lemma_leading_stop(s, CharClass::Whitespace);
    lemma_leading_stop(t, CharClass::NonWhitespace);
    lemma_leading_in_class(t, CharClass::NonWhitespace);
    assert forall|i: int| 0 <= i < first_word(s).len() implies !is_whitespace_char(#[trigger] first_word(s)[i]) by {
        assert(first_word(s)[i] == t[i]);
    }
}

/// What `strip` leaves is a stretch of the text it was given.
pub proof fn lemma_strip_is_stretch(s: Seq<char>, cls: CharClass) -> (a: int)
    ensures
        0 <= a && a + strip(s, cls).len() <= s.len(),
        s.subrange(a, a + strip(s, cls).len()) == strip(s, cls),
{
    let a = leading(s, cls) as int;
    lemma_leading_stop(s, cls);
    let t = s.skip(a);
    lemma_trailing_stop(t, cls);
    assert(s.subrange(a, a + strip(s, cls).len()) =~= strip(s, cls));
    a
}

/// What `strip` leaves, when anything, neither starts nor ends with a
/// character of the stripped class.
pub proof fn lemma_strip_ends(s: Seq<char>, cls: CharClass)
    ensures
        strip(s, cls).len() > 0 ==> !in_class(cls, strip(s, cls)[0]) && !in_class(
            cls,
            strip(s, cls).last(),
        ),
{
    let a = leading(s, cls);
    lemma_leading_stop(s, cls);
    let t = s.skip(a as int);
    let b = trailing(t, cls);
    lemma_trailing_stop(t, cls);
    let r = strip(s, cls);
    if r.len() > 0 {
        assert(r[0] == s[a as int]);
        assert(r.last() == t[t.len() - 1 - b]);
    }
}

/// The number of characters of the class at the start of `s[from..]`.
fn count_leading(s: &[char], from: usize, cls: CharClass) -> (k: usize)
    requires
        from <= s@.len(),
    ensures
        k == leading(s@.skip(from as int), cls),
        from + k <= s@.len(),
{
    let n = s.len();
    let mut j = from;
    while j < n && in_class_exec(cls, s[j])
        invariant
            n == s@.len(),
            from <= j <= n,
            leading(s@.skip(from as int), cls) == (j - from) + leading(s@.skip(j as int), cls),
        decreases n - j,
    {
        assert(s@.skip(j as int).drop_first() =~= s@.skip(j + 1));
        j = j + 1;
    }
    j - from
}

/// The number of characters of the class at the end of `s[from..to]`.
fn count_trailing(s: &[char], from: usize, to: usize, cls: CharClass) -> (k: usize)
    requires
        from <= to <= s@.len(),
    ensures
        k == trailing(s@.subrange(from as int, to as int), cls),
        k <= to - from,
{
    let mut j = to;
    while j > from && in_class_exec(cls, s[j - 1])
        invariant
            to <= s@.len(),
            from <= j <= to,
            trailing(s@.subrange(from as int, to as int), cls) == (to - j) + trailing(
                s@.subrange(from as int, j as int),
                cls,
            ),
        decreases j - from,
    {
        assert(s@.subrange(from as int, j as int).drop_last() =~= s@.subrange(
            from as int,
            j - 1,
        ));
        j = j - 1;
    }
    to - j
}

/// The characters `s[from..to]`.
pub fn slice_chars(s: &[char], from: usize, to: usize) -> (r: Vec<char>)
    requires
        from <= to <= s@.len(),
    ensures
        r@ == s@.subrange(from as int, to as int),
{
    let mut r: Vec<char> = Vec::new();
    let mut j = from;
    while j < to
        invariant
            from <= j <= to <= s@.len(),
            r@ == s@.subrange(from as int, j as int),
        decreases to - j,
    {
        r.push(s[j]);
        j = j + 1;
        assert(r@ =~= s@.subrange(from as int, j as int));
    }
    r
}

/// `s` without the characters of the class at its start and at its end.
pub fn strip_chars(s: &[char], cls: CharClass) -> (r: Vec<char>)
    ensures
        r@ == strip(s@, cls),
{
    let n = s.len();
    let a = count_leading(s, 0, cls);
    assert(s@.skip(0) =~= s@);
    let b = count_trailing(s, a, n, cls);
    assert(s@.subrange(a as int, n as int) =~= s@.skip(a as int));
    let r = slice_chars(s, a, n - b);
    assert(r@ =~= s@.skip(a as int).take(n - a - b));
    r
}

/// `s` without leading and trailing white space.
pub fn trim_chars(s: &[char]) -> (r: Vec<char>)
    ensures
        r@ == trim_spec(s@),
{
    strip_chars(s, CharClass::Whitespace)
}

/// The first run of non-white-space characters of `s`, or nothing.
pub fn first_word_chars(s: &[char]) -> (r: Vec<char>)
    ensures
        r@ == first_word(s@),
{
    let n = s.len();
    let a = count_leading(s, 0, CharClass::Whitespace);
    assert(s@.skip(0) =~= s@);
    let k = count_leading(s, a, CharClass::NonWhitespace);
    let r = slice_chars(s, a, a + k);
    assert(r@ =~= s@.skip(a as int).take(k as int));
    r
}


/// The lower-case form of a string, as `str::to_lowercase` computes it.
pub uninterp spec fn lowercase_of(s: Seq<char>) -> Seq<char>;

/// `str::to_lowercase`. The contract claims only that the result is the value
/// of `lowercase_of` on the characters of the argument: a function of the
/// string alone, fixed by the Unicode tables of the standard library. The
/// mapping itself (which may change the number of characters and their
/// UTF-8 sizes) is left unstated.
#[verifier::external_body]
pub(crate) fn to_lowercase(s: &str) -> (r: String)
    ensures
        r@ == lowercase_of(s@),
{
    s.to_lowercase()
}

/// The number of bytes that UTF-8 takes for a character.
pub open spec fn utf8_width(c: char) -> nat {
    let v = c as u32;
    if v < 0x80 {
        1
    } else if v < 0x800 {
        2
    } else if v < 0x10000 {
        3
    } else {
        4
    }
}

/// The number of bytes of the UTF-8 encoding of a character sequence.
pub open spec fn utf8_size(s: Seq<char>) -> nat
    decreases s.len(),
{
    if s.len() == 0 {
        0
    } else {
        utf8_size(s.drop_last()) + utf8_width(s.last())
    }
}

/// The character index of `s` at which its byte offset `b` falls, when `b`
/// is a character boundary of `s` (its end included).
pub open spec fn index_at_byte(s: Seq<char>, b: int) -> Option<int> {
    if exists|j: int| 0 <= j <= s.len() && utf8_size(s.take(j)) == b {
        Some(choose|j: int| 0 <= j <= s.len() && utf8_size(s.take(j)) == b)
    } else {
        None
    }
}

proof fn lemma_utf8_size_step(s: Seq<char>, j: int)
    requires
        0 <= j < s.len(),
    ensures
        utf8_size(s.take(j + 1)) == utf8_size(s.take(j)) + utf8_width(s[j]),
{
    assert(s.take(j + 1).drop_last() =~= s.take(j));
}

proof fn lemma_utf8_size_increasing(s: Seq<char>, i: int, j: int)
    requires
        0 <= i < j <= s.len(),
    ensures
        utf8_size(s.take(i)) < utf8_size(s.take(j)),
    decreases j - i,
{
    lemma_utf8_size_step(s, j - 1);
    if i < j - 1 {
        lemma_utf8_size_increasing(s, i, j - 1);
    }
}

/// The number of UTF-8 bytes of a character.
pub fn utf8_width_exec(c: char) -> (r: u128)
    ensures
        r == utf8_width(c),
{
    let v = c as u32;
    if v < 0x80 {
        1
    } else if v < 0x800 {
        2
    } else if v < 0x10000 {
        3
    } else {
        4
    }
}

/// The number of UTF-8 bytes of the first `k` characters of `s`.
pub fn prefix_bytes(s: &[char], k: usize) -> (r: u128)
    requires
        k <= s@.len(),
    ensures
        r == utf8_size(s@.take(k as int)),
        r <= 4 * k,
{
    let mut acc: u128 = 0;
    let mut j: usize = 0;
    assert(s@.take(0) =~= Seq::<char>::empty());
    while j < k
        invariant
            k <= s@.len(),
            j <= k,
            acc == utf8_size(s@.take(j as int)),
            acc <= 4 * j,
        decreases k - j,
    {
        proof {
            lemma_utf8_size_step(s@, j as int);
        }
        acc = acc + utf8_width_exec(s[j]);
        j = j + 1;
    }
    acc
}

/// The number of leading characters of `s`, counted from `j` on, whose
/// UTF-8 encoding fits within the first `b` bytes.
pub open spec fn floor_from(s: Seq<char>, b: int, j: int) -> int
    decreases s.len() - j,
{
    if 0 <= j < s.len() && utf8_size(s.take(j + 1)) <= b {
        floor_from(s, b, j + 1)
    } else {
        j
    }
}

/// The character index of the last character boundary of `s` at or before
/// byte offset `b` (the end of `s` when `b` lies beyond it).
pub open spec fn floor_index_at_byte(s: Seq<char>, b: int) -> int {
    floor_from(s, b, 0)
}

/// Where `b` is a character boundary of `s`, the boundary at or before it is
/// `b` itself.
pub proof fn lemma_floor_at_boundary(s: Seq<char>, b: int)
    requires
        index_at_byte(s, b) is Some,
    ensures
        floor_index_at_byte(s, b) == index_at_byte(s, b)->0,
{
    let w = index_at_byte(s, b)->0;
    assert(0 <= w <= s.len() && utf8_size(s.take(w)) == b);
    lemma_floor_from_reaches(s, b, 0, w);
}

proof fn lemma_floor_from_reaches(s: Seq<char>, b: int, j: int, w: int)
    requires
        0 <= j <= w <= s.len(),
        utf8_size(s.take(w)) == b,
    ensures
        floor_from(s, b, j) == w,
    decreases s.len() - j,
{
    if j < w {
        if j + 1 < w {
            lemma_utf8_size_increasing(s, j + 1, w);
        }
        lemma_floor_from_reaches(s, b, j + 1, w);
    } else if j < s.len() {
        lemma_utf8_size_increasing(s, j, j + 1);
    }
}

/// The boundary at or before the byte size of a prefix of `s` is the end of
/// that prefix.
pub proof fn lemma_floor_of_prefix(s: Seq<char>, w: int)
    requires
        0 <= w <= s.len(),
    ensures
        floor_index_at_byte(s, utf8_size(s.take(w)) as int) == w,
{
    lemma_floor_from_reaches(s, utf8_size(s.take(w)) as int, 0, w);
}

/// The UTF-8 size of two sequences one after the other is the sum of theirs.
pub proof fn lemma_utf8_size_concat(a: Seq<char>, b: Seq<char>)
    ensures
        utf8_size(a + b) == utf8_size(a) + utf8_size(b),
    decreases b.len(),
{
    if b.len() == 0 {
        assert(a + b =~= a);
    } else {
        lemma_utf8_size_concat(a, b.drop_last());
        assert((a + b).drop_last() =~= a + b.drop_last());
        assert((a + b).last() == b.last());
    }
}

/// The character index of the last character boundary of `s` at or before
/// byte offset `b`.
pub fn char_floor_at_byte(s: &[char], b: u128) -> (r: usize)
    ensures
        r == floor_index_at_byte(s@, b as int),
        r <= s@.len(),
        utf8_size(s@.take(r as int)) <= b,
        r < s@.len() ==> utf8_size(s@.take(r + 1)) > b,
{
    let n = s.len();
    let mut acc: u128 = 0;
    let mut j: usize = 0;
    assert(s@.take(0) =~= Seq::<char>::empty());
    loop
        invariant
            n == s@.len(),
            j <= n,
            acc == utf8_size(s@.take(j as int)),
            acc <= 4 * j,
            acc <= b,
            floor_index_at_byte(s@, b as int) == floor_from(s@, b as int, j as int),
        decreases n - j,
    {
        if j == n {
            return j;
        }
        proof {
            lemma_utf8_size_step(s@, j as int);
        }
        let next = acc + utf8_width_exec(s[j]);
        if next > b {
            return j;
        }
        acc = next;
        j = j + 1;
    }
}

/// Whether two character sequences are equal.
pub fn same_chars(a: &[char], b: &[char]) -> (r: bool)
    ensures
        r == (a@ == b@),
{
    if a.len() != b.len() {
        return false;
    }
    let n = a.len();
    let mut i: usize = 0;
    while i < n
        invariant
            n == a@.len(),
            n == b@.len(),
            i <= n,
            forall|k: int| 0 <= k < i ==> a@[k] == b@[k],
        decreases n - i,
    {
        if a[i] != b[i] {
            return false;
        }
        i = i + 1;
    }
    assert(a@ =~= b@);
    true
}

/// Whether a string equals the literal `lit`.
pub fn str_is(s: &str, lit: &str) -> (r: bool)
    ensures
        r == (s@ == lit@),
{
    let a = chars_of(s);
    let b = chars_of(lit);
    same_chars(a.as_slice(), b.as_slice())
}

} // verus!

//! Text as sequences of characters: searching, trimming, splitting and decimal numerals.

use vstd::prelude::*;

verus! {

/// `String::push` appends one character to the end of the string.
pub assume_specification [String::push] (s: &mut String, c: char)
    ensures
        final(s)@ == old(s)@.push(c),
;

/// A set of characters that a scan looks for.
#[derive(Clone, Copy)]
pub enum CharClass {
    /// Unicode white space.
    Space,
    /// One character.
    Exactly(char),
    /// Everything but the ASCII digits.
    NotDigit,
}

/// The characters of the Unicode `White_Space` property.
pub open spec fn is_space(c: char) -> bool {
    ||| '\u{9}' <= c <= '\u{d}'
    ||| c == ' '
    ||| c == '\u{85}'
    ||| c == '\u{a0}'
    ||| c == '\u{1680}'
    ||| '\u{2000}' <= c <= '\u{200a}'
    ||| c == '\u{2028}'
    ||| c == '\u{2029}'
    ||| c == '\u{202f}'
    ||| c == '\u{205f}'
    ||| c == '\u{3000}'
}

/// The ASCII digits.
pub open spec fn is_digit(c: char) -> bool {
    '0' <= c <= '9'
}

impl CharClass {
    /// Membership in the class.
    pub open spec fn has(self, c: char) -> bool {
        match self {
            CharClass::Space => is_space(c),
            CharClass::Exactly(x) => c == x,
            CharClass::NotDigit => !is_digit(c),
        }
    }

    /// Tests membership in the class.
    pub fn holds(&self, c: char) -> (r: bool)
        ensures
            r == self.has(c),
    {
        match self {
            CharClass::Space => space(c),
            CharClass::Exactly(x) => c == *x,
            CharClass::NotDigit => !digit(c),
        }
    }
}

/// Tests for Unicode white space.
pub fn space(c: char) -> (r: bool)
    ensures
        r == is_space(c),
{
    ('\u{9}' <= c && c <= '\u{d}') || c == ' ' || c == '\u{85}' || c == '\u{a0}' || c == '\u{1680}'
        || ('\u{2000}' <= c && c <= '\u{200a}') || c == '\u{2028}' || c == '\u{2029}'
        || c == '\u{202f}' || c == '\u{205f}' || c == '\u{3000}'
}

/// Tests for an ASCII digit.
pub fn digit(c: char) -> (r: bool)
    ensures
        r == is_digit(c),
{
    '0' <= c && c <= '9'
}

/// The characters of a string.
pub fn to_chars(s: &str) -> (r: Vec<char>)
    ensures
        r@ == s@,
{
    let mut out: Vec<char> = Vec::new();
    for c in it: s.chars()
        invariant
            it.seq() == s@,
            out@ == s@.take(it.index()),
    {
        out.push(c);
        assert(s@.take(it.index() + 1) =~= s@.take(it.index()).push(c));
    }
    assert(s@.take(s@.len() as int) =~= s@);
    out
}

/// The string made of the given characters.
pub fn from_chars(s: &[char]) -> (r: String)
    ensures
        r@ == s@,
{
    let mut out = String::new();
    for i in 0..s.len()
        invariant
            out@ == s@.take(i as int),
    {
        out.push(s[i]);
        assert(s@.take(i + 1) =~= s@.take(i as int).push(s[i as int]));
    }
    assert(s@.take(s@.len() as int) =~= s@);
    out
}

/// Equality of two character sequences.
pub fn same_chars(a: &[char], b: &[char]) -> (r: bool)
    ensures
        r == (a@ == b@),
{
    if a.len() != b.len() {
        return false;
    }
    for i in 0..a.len()
        invariant
            a@.len() == b@.len(),
            forall|j: int| 0 <= j < i ==> a@[j] == b@[j],
    {
        if a[i] != b[i] {
            return false;
        }
    }
    assert(a@ =~= b@);
    true
}

/// Equality of two strings.
pub fn same_str(a: &str, b: &str) -> (r: bool)
    ensures
        r == (a@ == b@),
{
    let x = a.as_bytes();
    let y = b.as_bytes();
    proof {
        vstd::utf8::encode_utf8_decode_utf8(a@);
        vstd::utf8::encode_utf8_decode_utf8(b@);
    }
    if x.len() != y.len() {
        return false;
    }
    for i in 0..x.len()
        invariant
            x@ == vstd::utf8::encode_utf8(a@),
            y@ == vstd::utf8::encode_utf8(b@),
            x@.len() == y@.len(),
            forall|j: int| 0 <= j < i ==> x@[j] == y@[j],
    {
        if x[i] != y[i] {
            return false;
        }
    }
    assert(x@ =~= y@);
    true
}

/// Compares characters with a string.
pub fn is_str(a: &[char], b: &str) -> (r: bool)
    ensures
        r == (a@ == b@),
{
    let y = to_chars(b);
    same_chars(a, y.as_slice())
}

/// Whether `s` starts with `prefix`.
pub fn has_prefix(s: &[char], prefix: &str) -> (r: bool)
    ensures
        r == prefix@.is_prefix_of(s@),
{
    let p = to_chars(prefix);
    if p.len() > s.len() {
        return false;
    }
    same_chars(slice_part(s, 0, p.len()), p.as_slice())
}

/// Whether `s` ends with `suffix`.
pub fn has_suffix(s: &[char], suffix: &str) -> (r: bool)
    ensures
        r == suffix@.is_suffix_of(s@),
{
    let p = to_chars(suffix);
    if p.len() > s.len() {
        return false;
    }
    same_chars(slice_part(s, s.len() - p.len(), s.len()), p.as_slice())
}

/// What follows `prefix` in `s`, where `s` starts with it.
pub open spec fn after_prefix(s: Seq<char>, prefix: Seq<char>) -> Option<Seq<char>> {
    if prefix.is_prefix_of(s) {
        Some(s.skip(prefix.len() as int))
    } else {
        None
    }
}

/// The views of a sequence of slices.
pub open spec fn views(v: Seq<&[char]>) -> Seq<Seq<char>> {
    Seq::new(v.len(), |i: int| v[i]@)
}

/// The views of a sequence of strings.
pub open spec fn texts(v: Seq<String>) -> Seq<Seq<char>> {
    Seq::new(v.len(), |i: int| v[i]@)
}

/// The view of an optional string.
pub open spec fn opt_text(v: Option<String>) -> Option<Seq<char>> {
    match v {
        Some(s) => Some(s@),
        None => None,
    }
}

/// The view of an optional string slice.
pub open spec fn opt_str(v: Option<&str>) -> Option<Seq<char>> {
    match v {
        Some(s) => Some(s@),
        None => None,
    }
}

/// The view of optional characters.
pub open spec fn opt_view(v: Option<&[char]>) -> Option<Seq<char>> {
    match v {
        Some(s) => Some(s@),
        None => None,
    }
}

/// The part of a slice from `i` up to `j`.
pub fn slice_part<'a>(s: &'a [char], i: usize, j: usize) -> (r: &'a [char])
    requires
        i <= j <= s@.len(),
    ensures
        r@ == s@.subrange(i as int, j as int),
{
    &s[i..j]
}

/// Removes `prefix` from the start of `s`.
pub fn strip_prefix<'a>(s: &'a [char], prefix: &str) -> (r: Option<&'a [char]>)
    ensures
        opt_view(r) == after_prefix(s@, prefix@),
{
    if has_prefix(s, prefix) {
        let p = to_chars(prefix);
        let out = slice_part(s, p.len(), s.len());
        assert(out@ =~= s@.skip(prefix@.len() as int));
        Some(out)
    } else {
        None
    }
}

/// The position of the first character of the class, or the length where there is none.
pub open spec fn first_of(s: Seq<char>, class: CharClass) -> int
    decreases s.len(),
{
    if s.len() == 0 || class.has(s[0]) {
        0
    } else {
        1 + first_of(s.drop_first(), class)
    }
}

/// `s` without its leading characters of the class.
pub open spec fn drop_leading(s: Seq<char>, class: CharClass) -> Seq<char>
    decreases s.len(),
{
    if s.len() > 0 && class.has(s[0]) {
        drop_leading(s.drop_first(), class)
    } else {
        s
    }
}

/// `s` without its trailing characters of the class.
pub open spec fn drop_trailing(s: Seq<char>, class: CharClass) -> Seq<char>
    decreases s.len(),
{
    if s.len() > 0 && class.has(s.last()) {
        drop_trailing(s.drop_last(), class)
    } else {
        s
    }
}

/// `s` without white space at either end.
pub open spec fn trimmed(s: Seq<char>) -> Seq<char> {
    drop_trailing(drop_leading(s, CharClass::Space), CharClass::Space)
}

/// `first_of` lies within the sequence and names the first member of the class.
pub proof fn lemma_first_of(s: Seq<char>, class: CharClass)
    ensures
        0 <= first_of(s, class) <= s.len(),
        first_of(s, class) < s.len() ==> class.has(s[first_of(s, class)]),
        forall|i: int| 0 <= i < first_of(s, class) ==> !class.has(#[trigger] s[i]),
    decreases s.len(),
{
    if s.len() > 0 && !class.has(s[0]) {
        lemma_first_of(s.drop_first(), class);
        assert forall|i: int| 0 <= i < first_of(s, class) implies !class.has(#[trigger] s[i]) by {
            if i > 0 {
                assert(s[i] == s.drop_first()[i - 1]);
            }
        }
    }
}

/// Finds the first character of the class, or the length where there is none.
pub fn find_class(s: &[char], class: CharClass) -> (r: usize)
    ensures
        r == first_of(s@, class),
        r <= s@.len(),
{
    proof {
        lemma_first_of(s@, class);
    }
    let mut i: usize = 0;
    assert(s@.skip(0) =~= s@);
    while i < s.len()
        invariant
            i <= s@.len(),
            first_of(s@, class) == i + first_of(s@.skip(i as int), class),
            first_of(s@, class) <= s@.len(),
        decreases s@.len() - i,
    {
        assert(s@.skip(i as int).drop_first() =~= s@.skip(i + 1));
        if class.holds(s[i]) {
            return i;
        }
        i = i + 1;
    }
    i
}

/// Removes the leading characters of the class.
pub fn trim_leading<'a>(s: &'a [char], class: CharClass) -> (r: &'a [char])
    ensures
        r@ == drop_leading(s@, class),
{
    let mut i: usize = 0;
    assert(s@.skip(0) =~= s@);
    while i < s.len() && class.holds(s[i])
        invariant
            i <= s@.len(),
            drop_leading(s@, class) == drop_leading(s@.skip(i as int), class),
        decreases s@.len() - i,
    {
        assert(s@.skip(i as int).drop_first() =~= s@.skip(i + 1));
        i = i + 1;
    }
    let out = slice_part(s, i, s.len());
    assert(out@ =~= s@.skip(i as int));
    out
}

/// Removes the trailing characters of the class.
pub fn trim_trailing<'a>(s: &'a [char], class: CharClass) -> (r: &'a [char])
    ensures
        r@ == drop_trailing(s@, class),
{
    let mut n: usize = s.len();
    assert(s@.take(n as int) =~= s@);
    while n > 0 && class.holds(s[n - 1])
        invariant
            n <= s@.len(),
            drop_trailing(s@, class) == drop_trailing(s@.take(n as int), class),
        decreases n,
    {
        assert(s@.take(n as int).drop_last() =~= s@.take(n - 1));
        n = n - 1;
    }
    let out = slice_part(s, 0, n);
    assert(out@ =~= s@.take(n as int));
    out
}

/// Removes white space at both ends.
pub fn trim<'a>(s: &'a [char]) -> (r: &'a [char])
    ensures
        r@ == trimmed(s@),
{
    trim_trailing(trim_leading(s, CharClass::Space), CharClass::Space)
}

/// The parts before and after the first character of the class.
pub open spec fn split_first(s: Seq<char>, class: CharClass) -> Option<(Seq<char>, Seq<char>)> {
    let i = first_of(s, class);
    if i < s.len() {
        Some((s.take(i), s.skip(i + 1)))
    } else {
        None
    }
}

/// The views of an optional pair of slices.
pub open spec fn pair_view(v: Option<(&[char], &[char])>) -> Option<(Seq<char>, Seq<char>)> {
    match v {
        Some((a, b)) => Some((a@, b@)),
        None => None,
    }
}

/// Splits at the first character of the class.
pub fn split_once<'a>(s: &'a [char], class: CharClass) -> (r: Option<(&'a [char], &'a [char])>)
    ensures
        pair_view(r) == split_first(s@, class),
{
    let i = find_class(s, class);
    if i < s.len() {
        let head = slice_part(s, 0, i);
        let tail = slice_part(s, i + 1, s.len());
        assert(head@ =~= s@.take(i as int));
        assert(tail@ =~= s@.skip(i + 1));
        Some((head, tail))
    } else {
        None
    }
}

/// The parts before and after the last occurrence of `c`.
pub open spec fn split_last(s: Seq<char>, c: char) -> Option<(Seq<char>, Seq<char>)>
    decreases s.len(),
{
    if s.len() == 0 {
        None
    } else if s.last() == c {
        Some((s.drop_last(), Seq::<char>::empty()))
    } else {
        match split_last(s.drop_last(), c) {
            Some((a, b)) => Some((a, b.push(s.last()))),
            None => None,
        }
    }
}

proof fn lemma_split_last_none(s: Seq<char>, c: char)
    requires
        forall|i: int| 0 <= i < s.len() ==> s[i] != c,
    ensures
        split_last(s, c) is None,
    decreases s.len(),
{
    if s.len() > 0 {
        lemma_split_last_none(s.drop_last(), c);
    }
}

/// The last occurrence is where a text is split last.
pub proof fn lemma_split_last_at(s: Seq<char>, c: char, i: int)
    requires
        0 <= i < s.len(),
        s[i] == c,
        forall|j: int| i < j < s.len() ==> s[j] != c,
    ensures
        split_last(s, c) == Some((s.take(i), s.skip(i + 1))),
    decreases s.len(),
{
    if i == s.len() - 1 {
        assert(s.take(i) =~= s.drop_last());
        assert(s.skip(i + 1) =~= Seq::<char>::empty());
    } else {
        lemma_split_last_at(s.drop_last(), c, i);
        assert(s.drop_last().take(i) =~= s.take(i));
        assert(s.drop_last().skip(i + 1).push(s.last()) =~= s.skip(i + 1));
    }
}

/// Splits at the last occurrence of `c`.
pub fn rsplit_once<'a>(s: &'a [char], c: char) -> (r: Option<(&'a [char], &'a [char])>)
    ensures
        pair_view(r) == split_last(s@, c),
{
    let mut n: usize = s.len();
    while n > 0
        invariant
            n <= s@.len(),
            forall|j: int| n <= j < s@.len() ==> s@[j] != c,
        decreases n,
    {
        n = n - 1;
        if s[n] == c {
            let head = slice_part(s, 0, n);
            let tail = slice_part(s, n + 1, s.len());
            proof {
                lemma_split_last_at(s@, c, n as int);
                assert(head@ =~= s@.take(n as int));
                assert(tail@ =~= s@.skip(n + 1));
            }
            return Some((head, tail));
        }
    }
    proof {
        lemma_split_last_none(s@, c);
    }
    None
}

/// The pieces of `s` between the occurrences of `c`.
pub open spec fn split_on(s: Seq<char>, c: char) -> Seq<Seq<char>>
    decreases s.len(),
{
    let i = first_of(s, CharClass::Exactly(c));
    if i < s.len() {
        proof {
            lemma_first_of(s, CharClass::Exactly(c));
        }
        seq![s.take(i)] + split_on(s.skip(i + 1), c)
    } else {
        seq![s]
    }
}

/// Splits at every occurrence of `c`.
pub fn split<'a>(s: &'a [char], c: char) -> (r: Vec<&'a [char]>)
    ensures
        views(r@) == split_on(s@, c),
        r@.len() > 0,
{
    let mut out: Vec<&'a [char]> = Vec::new();
    let mut rest: &'a [char] = s;
    let ghost whole = split_on(s@, c);
    assert(views(out@) + split_on(rest@, c) =~= whole);
    loop
        invariant_except_break
            views(out@) + split_on(rest@, c) == whole,
        ensures
            views(out@) == whole,
            out@.len() > 0,
        decreases rest@.len(),
    {
        let ghost before = out@;
        let ghost tail_before = rest@;
        proof {
            lemma_first_of(rest@, CharClass::Exactly(c));
        }
        match split_once(rest, CharClass::Exactly(c)) {
            Some((head, tail)) => {
                out.push(head);
                rest = tail;
                proof {
                    assert(views(out@) =~= views(before).push(head@));
                    assert(split_on(tail_before, c) =~= seq![head@] + split_on(tail@, c));
                    assert(views(out@) + split_on(rest@, c) =~= views(before) + split_on(
                        tail_before,
                        c,
                    ));
                }
            },
            None => {
                out.push(rest);
                proof {
                    assert(views(out@) =~= views(before).push(rest@));
                    assert(split_on(rest@, c) =~= seq![rest@]);
                    assert(views(out@) =~= views(before) + split_on(rest@, c));
                }
                break;
            },
        }
    }
    out
}

/// `s` without one trailing carriage return.
pub open spec fn without_cr(s: Seq<char>) -> Seq<char> {
    if s.len() > 0 && s.last() == '\r' {
        s.drop_last()
    } else {
        s
    }
}

/// The lines of a text. A line ends at a line feed, with or without a carriage return before it.
pub open spec fn lines_of(s: Seq<char>) -> Seq<Seq<char>>
    decreases s.len(),
{
    let i = first_of(s, CharClass::Exactly('\n'));
    if s.len() == 0 {
        Seq::empty()
    } else if i < s.len() {
        proof {
            lemma_first_of(s, CharClass::Exactly('\n'));
        }
        seq![without_cr(s.take(i))] + lines_of(s.skip(i + 1))
    } else {
        seq![s]
    }
}

/// Splits a text into its lines.
pub fn lines<'a>(s: &'a [char]) -> (r: Vec<&'a [char]>)
    ensures
        views(r@) == lines_of(s@),
{
    let mut out: Vec<&'a [char]> = Vec::new();
    let mut rest: &'a [char] = s;
    let ghost whole = lines_of(s@);
    assert(views(out@) + lines_of(rest@) =~= whole);
    while rest.len() > 0
        invariant
            views(out@) + lines_of(rest@) == whole,
        decreases rest@.len(),
    {
        let ghost before = out@;
        let ghost tail_before = rest@;
        proof {
            lemma_first_of(rest@, CharClass::Exactly('\n'));
        }
        match split_once(rest, CharClass::Exactly('\n')) {
            Some((head, tail)) => {
                let line = if head.len() > 0 && head[head.len() - 1] == '\r' {
                    slice_part(head, 0, head.len() - 1)
                } else {
                    head
                };
                assert(line@ =~= without_cr(head@));
                out.push(line);
                rest = tail;
                proof {
                    assert(views(out@) =~= views(before).push(line@));
                    assert(lines_of(tail_before) =~= seq![line@] + lines_of(tail@));
                    assert(views(out@) + lines_of(rest@) =~= views(before) + lines_of(tail_before));
                }
            },
            None => {
                out.push(rest);
                proof {
                    assert(views(out@) =~= views(before).push(rest@));
                    assert(lines_of(tail_before) =~= seq![rest@]);
                }
                rest = slice_part(rest, rest.len(), rest.len());
                assert(lines_of(rest@) =~= Seq::<Seq<char>>::empty());
                assert(views(out@) + lines_of(rest@) =~= views(before) + lines_of(tail_before));
            },
        }
    }
    assert(lines_of(rest@) =~= Seq::<Seq<char>>::empty());
    assert(views(out@) =~= whole);
    out
}

/// Dropping leading characters never lengthens, and leaves no leading character of the class.
pub proof fn lemma_drop_leading_len(s: Seq<char>, class: CharClass)
    ensures
        drop_leading(s, class).len() <= s.len(),
        drop_leading(s, class).len() > 0 ==> !class.has(drop_leading(s, class)[0]),
    decreases s.len(),
{
    if s.len() > 0 && class.has(s[0]) {
        lemma_drop_leading_len(s.drop_first(), class);
    }
}

/// The runs of characters between white space.
pub open spec fn words_of(s: Seq<char>) -> Seq<Seq<char>>
    decreases s.len(),
{
    let t = drop_leading(s, CharClass::Space);
    let i = first_of(t, CharClass::Space);
    if t.len() == 0 {
        Seq::empty()
    } else {
        proof {
            lemma_drop_leading_len(s, CharClass::Space);
            lemma_first_of(t, CharClass::Space);
        }
        seq![t.take(i)] + words_of(t.skip(i))
    }
}

/// Splits a text into the runs of characters between white space.
pub fn words<'a>(s: &'a [char]) -> (r: Vec<&'a [char]>)
    ensures
        views(r@) == words_of(s@),
{
    let mut out: Vec<&'a [char]> = Vec::new();
    let mut rest: &'a [char] = s;
    let ghost whole = words_of(s@);
    assert(views(out@) + words_of(rest@) =~= whole);
    loop
        invariant
            views(out@) + words_of(rest@) == whole,
        ensures
            views(out@) == whole,
        decreases rest@.len(),
    {
        let ghost before = out@;
        let ghost rest_before = rest@;
        let t = trim_leading(rest, CharClass::Space);
        proof {
            lemma_drop_leading_len(rest@, CharClass::Space);
            lemma_first_of(t@, CharClass::Space);
        }
        if t.len() == 0 {
            assert(words_of(rest@) =~= Seq::<Seq<char>>::empty());
            assert(views(out@) =~= whole);
            break;
        }
        let i = find_class(t, CharClass::Space);
        let head = slice_part(t, 0, i);
        assert(head@ =~= t@.take(i as int));
        out.push(head);
        rest = slice_part(t, i, t.len());
        proof {
            assert(rest@ =~= t@.skip(i as int));
            assert(views(out@) =~= views(before).push(head@));
            assert(words_of(rest_before) =~= seq![head@] + words_of(rest@));
            assert(views(out@) + words_of(rest@) =~= views(before) + words_of(rest_before));
        }
    }
    out
}

/// Whether `needle` occurs in `s` at position `i`.
pub open spec fn occurs_at(s: Seq<char>, needle: Seq<char>, i: int) -> bool {
    0 <= i <= s.len() - needle.len() && s.subrange(i, i + needle.len()) == needle
}

/// Whether `needle` occurs in `s`.
pub open spec fn contains_text(s: Seq<char>, needle: Seq<char>) -> bool {
    exists|i: int| #[trigger] occurs_at(s, needle, i)
}

/// Whether `i` is where `needle` first occurs in `s`.
pub open spec fn first_occurrence(s: Seq<char>, needle: Seq<char>, i: int) -> bool {
    occurs_at(s, needle, i) && forall|j: int| j < i ==> !#[trigger] occurs_at(s, needle, j)
}

/// Finds where `needle` first occurs in `s`.
pub fn find_text(s: &[char], needle: &[char]) -> (r: Option<usize>)
    ensures
        match r {
            Some(i) => first_occurrence(s@, needle@, i as int),
            None => !contains_text(s@, needle@),
        },
{
    if needle.len() > s.len() {
        return None;
    }
    let last: usize = s.len() - needle.len();
    let mut i: usize = 0;
    while i <= last
        invariant
            last + needle.len() == s.len(),
            i <= last + 1,
            forall|j: int| j < i ==> !#[trigger] occurs_at(s@, needle@, j),
        decreases last + 1 - i,
    {
        if same_chars(slice_part(s, i, i + needle.len()), needle) {
            assert(occurs_at(s@, needle@, i as int));
            return Some(i);
        }
        if i == last {
            assert forall|j: int| !#[trigger] occurs_at(s@, needle@, j) by {}
            return None;
        }
        i = i + 1;
    }
    None
}

/// Whether `needle` occurs in `s`.
pub fn has_text(s: &str, needle: &str) -> (r: bool)
    ensures
        r == contains_text(s@, needle@),
{
    let hay = to_chars(s);
    let pin = to_chars(needle);
    match find_text(hay.as_slice(), pin.as_slice()) {
        Some(i) => {
            assert(occurs_at(s@, needle@, i as int));
            true
        },
        None => false,
    }
}

/// The given parts with `sep` between them.
pub open spec fn joined(parts: Seq<Seq<char>>, sep: Seq<char>) -> Seq<char>
    decreases parts.len(),
{
    if parts.len() == 0 {
        Seq::empty()
    } else if parts.len() == 1 {
        parts[0]
    } else {
        joined(parts.drop_last(), sep) + sep + parts.last()
    }
}

/// Joins strings with `sep` between them.
pub fn join(parts: &[String], sep: &str) -> (r: String)
    ensures
        r@ == joined(texts(parts@), sep@),
{
    let mut out = String::new();
    for i in 0..parts.len()
        invariant
            out@ == joined(texts(parts@).take(i as int), sep@),
    {
        if i > 0 {
            out.append(sep);
        }
        out.append(parts[i].as_str());
        proof {
            let t = texts(parts@);
            assert(t.take(i + 1).drop_last() =~= t.take(i as int));
            assert(t.take(i + 1).last() == parts@[i as int]@);
            if i == 0 {
                assert(out@ =~= t.take(1)[0]);
            }
        }
    }
    assert(texts(parts@).take(parts@.len() as int) =~= texts(parts@));
    out
}

/// The lower-case form of an ASCII letter; other characters as they are.
pub open spec fn ascii_lower(c: char) -> char {
    if 'A' <= c <= 'Z' {
        (c as int + 32) as char
    } else {
        c
    }
}

/// `s` with its ASCII letters in lower case.
pub open spec fn ascii_lowered(s: Seq<char>) -> Seq<char> {
    Seq::new(s.len(), |i: int| ascii_lower(s[i]))
}

/// Turns the ASCII letters into lower case.
pub fn to_ascii_lower(s: &[char]) -> (r: Vec<char>)
    ensures
        r@ == ascii_lowered(s@),
{
    let mut out: Vec<char> = Vec::new();
    for i in 0..s.len()
        invariant
            out@ == ascii_lowered(s@).take(i as int),
    {
        let c = s[i];
        let l = if 'A' <= c && c <= 'Z' {
            ((c as u8) + 32) as char
        } else {
            c
        };
        out.push(l);
        assert(l == ascii_lower(c));
        assert(ascii_lowered(s@).take(i + 1) =~= ascii_lowered(s@).take(i as int).push(l));
    }
    assert(ascii_lowered(s@).take(s@.len() as int) =~= ascii_lowered(s@));
    out
}

/// `s` without any repetition of `prefix` at its start.
pub open spec fn without_prefixes(s: Seq<char>, prefix: Seq<char>) -> Seq<char>
    decreases s.len(),
{
    if prefix.len() > 0 && prefix.is_prefix_of(s) {
        without_prefixes(s.skip(prefix.len() as int), prefix)
    } else {
        s
    }
}

/// `s` without any repetition of `suffix` at its end.
pub open spec fn without_suffixes(s: Seq<char>, suffix: Seq<char>) -> Seq<char>
    decreases s.len(),
{
    if suffix.len() > 0 && suffix.is_suffix_of(s) {
        without_suffixes(s.take(s.len() - suffix.len()), suffix)
    } else {
        s
    }
}

/// Removes every repetition of `prefix` from the start of `s`.
pub fn strip_prefixes<'a>(s: &'a [char], prefix: &str) -> (r: &'a [char])
    ensures
        r@ == without_prefixes(s@, prefix@),
{
    let p = to_chars(prefix);
    let mut rest: &'a [char] = s;
    while p.len() > 0 && has_prefix(rest, prefix)
        invariant
            p@ == prefix@,
            without_prefixes(s@, prefix@) == without_prefixes(rest@, prefix@),
        decreases rest@.len(),
    {
        let next = slice_part(rest, p.len(), rest.len());
        assert(next@ =~= rest@.skip(prefix@.len() as int));
        rest = next;
    }
    rest
}

/// Removes every repetition of `suffix` from the end of `s`.
pub fn strip_suffixes<'a>(s: &'a [char], suffix: &str) -> (r: &'a [char])
    ensures
        r@ == without_suffixes(s@, suffix@),
{
    let p = to_chars(suffix);
    let mut rest: &'a [char] = s;
    while p.len() > 0 && has_suffix(rest, suffix)
        invariant
            p@ == suffix@,
            without_suffixes(s@, suffix@) == without_suffixes(rest@, suffix@),
        decreases rest@.len(),
    {
        let next = slice_part(rest, 0, rest.len() - p.len());
        assert(next@ =~= rest@.take(rest@.len() - suffix@.len()));
        rest = next;
    }
    rest
}

/// A copy of optional text.
pub fn copy_opt(v: &Option<String>) -> (r: Option<String>)
    ensures
        opt_text(r) == opt_text(*v),
{
    match v {
        Some(s) => Some(s.clone()),
        None => None,
    }
}

/// Copies of strings.
pub fn copy_texts(v: &[String]) -> (r: Vec<String>)
    ensures
        texts(r@) == texts(v@),
{
    let mut out: Vec<String> = Vec::new();
    for i in 0..v.len()
        invariant
            texts(out@) == texts(v@).take(i as int),
    {
        let ghost before = out@;
        out.push(v[i].clone());
        assert(texts(out@) =~= texts(before).push(v@[i as int]@));
        assert(texts(v@).take(i + 1) =~= texts(v@).take(i as int).push(v@[i as int]@));
    }
    assert(texts(v@).take(v@.len() as int) =~= texts(v@));
    out
}

/// `s` up to the first character of the class.
pub open spec fn head_before(s: Seq<char>, class: CharClass) -> Seq<char> {
    s.take(first_of(s, class))
}

/// The part of `s` up to the first character of the class.
pub fn take_before<'a>(s: &'a [char], class: CharClass) -> (r: &'a [char])
    ensures
        r@ == head_before(s@, class),
{
    proof {
        lemma_first_of(s@, class);
    }
    let i = find_class(s, class);
    assert(s@.subrange(0, i as int) =~= s@.take(i as int));
    slice_part(s, 0, i)
}

/// Where `needle` first occurs in `s`.
pub open spec fn index_of(s: Seq<char>, needle: Seq<char>) -> Option<int> {
    if contains_text(s, needle) {
        Some(choose|i: int| first_occurrence(s, needle, i))
    } else {
        None
    }
}

/// An index at which `needle` first occurs is the one.
pub proof fn lemma_index_of(s: Seq<char>, needle: Seq<char>, i: int)
    requires
        first_occurrence(s, needle, i),
    ensures
        index_of(s, needle) == Some(i),
{
    assert(occurs_at(s, needle, i));
    let j = choose|j: int| first_occurrence(s, needle, j);
    assert(first_occurrence(s, needle, j));
    if i < j {
        assert(occurs_at(s, needle, i));
    } else if j < i {
        assert(occurs_at(s, needle, j));
    }
}

/// Whether all characters are ASCII.
pub open spec fn is_ascii_text(s: Seq<char>) -> bool {
    forall|i: int| 0 <= i < s.len() ==> (#[trigger] s[i] as u32) < 128
}

/// A text with characters beyond ASCII in lower case.
pub uninterp spec fn unicode_lowercase(s: Seq<char>) -> Seq<char>;

/// The text in lower case.
pub open spec fn lowercase(s: Seq<char>) -> Seq<char> {
    if is_ascii_text(s) {
        ascii_lowered(s)
    } else {
        unicode_lowercase(s)
    }
}

/// The text in lower case, by `str::to_lowercase`. Of an ASCII text that is the text with its
/// capital letters made small; of any other text the text alone decides what it is.
#[verifier::external_body]
pub(crate) fn to_lower(s: &str) -> (r: String)
    ensures
        is_ascii_text(s@) ==> r@ == ascii_lowered(s@),
        !is_ascii_text(s@) ==> r@ == unicode_lowercase(s@),
{
    s.to_lowercase()
}

/// `s` without its last character, if it has one.
pub open spec fn without_last(s: Seq<char>) -> Seq<char> {
    if s.len() == 0 {
        s
    } else {
        s.drop_last()
    }
}

/// Takes the last character off.
pub fn drop_last_char(s: &str) -> (r: String)
    ensures
        r@ == without_last(s@),
{
    let c = to_chars(s);
    if c.len() == 0 {
        return String::new();
    }
    assert(c@.subrange(0, c@.len() - 1) =~= s@.drop_last());
    from_chars(slice_part(c.as_slice(), 0, c.len() - 1))
}

} // verus!

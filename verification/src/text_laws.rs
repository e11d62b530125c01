//! What the operations on texts give: how a text is cut up, and that the pieces make it up again.

use vstd::prelude::*;

use crate::numeral::{decimal, decimal_int, int_of, lemma_decimal, u32_of};
use crate::text::{
    after_prefix, ascii_lowered, drop_leading, drop_trailing, first_of, head_before, is_digit,
    is_space, joined, lemma_first_of, lines_of, lowercase, split_first, split_last, split_on,
    trimmed, without_last, words_of, CharClass,
};

verus! {

/// The first place of a class is where a character of it stands with none before.
pub proof fn lemma_first_at(s: Seq<char>, class: CharClass, i: int)
    requires
        0 <= i <= s.len(),
        i < s.len() ==> class.has(s[i]),
        forall|j: int| 0 <= j < i ==> !class.has(#[trigger] s[j]),
    ensures
        first_of(s, class) == i,
{
    lemma_first_of(s, class);
    let f = first_of(s, class);
    if f < i {
        assert(!class.has(s[f]));
    }
    if i < f {
        assert(!class.has(s[i]));
    }
}

/// What is left without the leading characters of a class is the rest behind them.
pub proof fn law_leading(s: Seq<char>, class: CharClass)
    ensures
        ({
            let t = drop_leading(s, class);
            let k = s.len() - t.len();
            &&& 0 <= k <= s.len()
            &&& t == s.skip(k)
            &&& forall|i: int| 0 <= i < k ==> class.has(#[trigger] s[i])
            &&& t.len() > 0 ==> !class.has(t[0])
        }),
    decreases s.len(),
{
    if s.len() > 0 && class.has(s[0]) {
        let r = s.drop_first();
        law_leading(r, class);
        let t = drop_leading(s, class);
        let k = s.len() - t.len();
        assert(t =~= s.skip(k));
        assert forall|i: int| 0 <= i < k implies class.has(#[trigger] s[i]) by {
            if i > 0 {
                assert(r[i - 1] == s[i]);
            }
        }
    } else {
        assert(s.skip(0) =~= s);
    }
}

/// What is left without the trailing characters of a class is the start before them.
pub proof fn law_trailing(s: Seq<char>, class: CharClass)
    ensures
        ({
            let t = drop_trailing(s, class);
            &&& t.len() <= s.len()
            &&& t == s.take(t.len() as int)
            &&& forall|i: int| t.len() <= i < s.len() ==> class.has(#[trigger] s[i])
            &&& t.len() > 0 ==> !class.has(t.last())
        }),
    decreases s.len(),
{
    if s.len() > 0 && class.has(s.last()) {
        let r = s.drop_last();
        law_trailing(r, class);
        let t = drop_trailing(s, class);
        assert(t =~= s.take(t.len() as int));
        assert forall|i: int| t.len() <= i < s.len() implies class.has(#[trigger] s[i]) by {
            if i < r.len() {
                assert(r[i] == s[i]);
            }
        }
    } else {
        assert(s.take(s.len() as int) =~= s);
    }
}

/// A trimmed text is the part between the white space at both ends.
pub proof fn law_trimmed(s: Seq<char>) -> (k: int)
    ensures
        ({
            let t = trimmed(s);
            &&& 0 <= k
            &&& k + t.len() <= s.len()
            &&& t == s.subrange(k, k + t.len())
            &&& forall|i: int| 0 <= i < k ==> is_space(#[trigger] s[i])
            &&& forall|i: int| k + t.len() <= i < s.len() ==> is_space(#[trigger] s[i])
            &&& t.len() > 0 ==> !is_space(t[0]) && !is_space(t.last())
        }),
{
    law_leading(s, CharClass::Space);
    let r = drop_leading(s, CharClass::Space);
    law_trailing(r, CharClass::Space);
    let k = s.len() - r.len();
    let t = trimmed(s);
    assert(t =~= s.subrange(k, k + t.len()));
    assert forall|i: int| k + t.len() <= i < s.len() implies is_space(#[trigger] s[i]) by {
        assert(r[i - k] == s[i]);
    }
    if t.len() > 0 {
        assert(t[0] == r[0]);
    }
    assert forall|i: int| 0 <= i < k implies is_space(#[trigger] s[i]) by {
        assert(CharClass::Space.has(s[i]));
    }
    k
}

/// A text without white space at its ends is trimmed.
pub proof fn lemma_bare(s: Seq<char>)
    requires
        s.len() > 0 ==> !is_space(s[0]) && !is_space(s.last()),
    ensures
        trimmed(s) == s,
{
}

/// Cutting a text at the first character of a class gives what stands before it and behind it.
pub proof fn law_split_first(s: Seq<char>, class: CharClass)
    ensures
        match split_first(s, class) {
            Some((a, b)) => a.len() < s.len() && class.has(s[a.len() as int]) && s == a.push(
                s[a.len() as int],
            ) + b && forall|i: int| 0 <= i < a.len() ==> !class.has(#[trigger] a[i]),
            None => forall|i: int| 0 <= i < s.len() ==> !class.has(#[trigger] s[i]),
        },
        forall|i: int|
            0 <= i < head_before(s, class).len() ==> !class.has(#[trigger] head_before(s, class)[i]),
        head_before(s, class).is_prefix_of(s),
{
    lemma_first_of(s, class);
    let f = first_of(s, class);
    if f < s.len() {
        assert(s =~= s.take(f).push(s[f]) + s.skip(f + 1));
    }
}

/// Two parts with a character of the class between them are cut apart there, where the first part
/// has none.
pub proof fn lemma_cut(a: Seq<char>, x: char, b: Seq<char>, class: CharClass)
    requires
        class.has(x),
        forall|i: int| 0 <= i < a.len() ==> !class.has(#[trigger] a[i]),
    ensures
        split_first(a.push(x) + b, class) == Some((a, b)),
        head_before(a.push(x) + b, class) == a,
{
    let s = a.push(x) + b;
    assert forall|j: int| 0 <= j < a.len() implies !class.has(#[trigger] s[j]) by {
        assert(s[j] == a[j]);
    }
    lemma_first_at(s, class, a.len() as int);
    assert(s.take(a.len() as int) =~= a);
    assert(s.skip(a.len() as int + 1) =~= b);
}

/// A text without any character of the class is not cut.
pub proof fn lemma_uncut(s: Seq<char>, class: CharClass)
    requires
        forall|i: int| 0 <= i < s.len() ==> !class.has(#[trigger] s[i]),
    ensures
        split_first(s, class) is None,
        head_before(s, class) == s,
{
    lemma_first_at(s, class, s.len() as int);
    assert(s.take(s.len() as int) =~= s);
}

/// Cutting a text at the last of a character gives what stands before it and behind it.
pub proof fn law_split_last(s: Seq<char>, c: char)
    ensures
        match split_last(s, c) {
            Some((a, b)) => s == a.push(c) + b && forall|i: int|
                0 <= i < b.len() ==> #[trigger] b[i] != c,
            None => forall|i: int| 0 <= i < s.len() ==> #[trigger] s[i] != c,
        },
    decreases s.len(),
{
    if s.len() > 0 {
        let r = s.drop_last();
        law_split_last(r, c);
        assert(s =~= r.push(s.last()));
        if s.last() == c {
            assert(s =~= r.push(c) + Seq::<char>::empty());
        } else {
            match split_last(r, c) {
                Some((a, b)) => {
                    assert(s =~= a.push(c) + b.push(s.last()));
                },
                None => {
                    assert forall|i: int| 0 <= i < s.len() implies #[trigger] s[i] != c by {
                        if i < r.len() {
                            assert(r[i] == s[i]);
                        }
                    }
                },
            }
        }
    }
}

/// The parts of a text hold no separator, and with separators between them they are the text.
pub proof fn law_split_on(s: Seq<char>, c: char)
    ensures
        split_on(s, c).len() > 0,
        forall|k: int, i: int|
            0 <= k < split_on(s, c).len() && 0 <= i < split_on(s, c)[k].len()
                ==> #[trigger] split_on(s, c)[k][i] != c,
        joined(split_on(s, c), seq![c]) == s,
    decreases s.len(),
{
    let class = CharClass::Exactly(c);
    lemma_first_of(s, class);
    let f = first_of(s, class);
    if f < s.len() {
        let head = s.take(f);
        let rest = s.skip(f + 1);
        law_split_on(rest, c);
        let tail = split_on(rest, c);
        let all = seq![head] + tail;
        assert(all == split_on(s, c));
        lemma_join_front(head, tail, seq![c]);
        assert(head + seq![c] + rest =~= s);
        assert forall|k: int, i: int|
            0 <= k < all.len() && 0 <= i < all[k].len() implies #[trigger] all[k][i] != c by {
            if k > 0 {
                assert(all[k] == tail[k - 1]);
                assert(tail[k - 1][i] != c);
            } else {
                assert(all[0][i] == s[i]);
                assert(!class.has(s[i]));
            }
        }
    } else {
        assert forall|i: int| 0 <= i < s.len() implies #[trigger] s[i] != c by {
            assert(!class.has(s[i]));
        }
    }
}

/// Parts are joined with the separator between each and the next.
pub proof fn lemma_join_front(head: Seq<char>, tail: Seq<Seq<char>>, sep: Seq<char>)
    requires
        tail.len() > 0,
    ensures
        joined(seq![head] + tail, sep) == head + sep + joined(tail, sep),
    decreases tail.len(),
{
    let all = seq![head] + tail;
    assert(all.last() == tail.last());
    assert(all.drop_last() =~= seq![head] + tail.drop_last());
    if tail.len() == 1 {
        assert(all.drop_last() =~= seq![head]);
        assert(joined(seq![head], sep) == head);
    } else {
        lemma_join_front(head, tail.drop_last(), sep);
        assert(joined(all, sep) =~= head + sep + joined(tail, sep));
    }
}

/// The lines of a text are cut at line breaks, one behind the last line being left out; a carriage
/// return before a break does not belong to the line.
pub proof fn law_lines(a: Seq<char>, b: Seq<char>)
    requires
        forall|i: int| 0 <= i < a.len() ==> #[trigger] a[i] != '\n',
    ensures
        lines_of(a.push('\n') + b) == seq![
            if a.len() > 0 && a.last() == '\r' {
                a.drop_last()
            } else {
                a
            },
        ] + lines_of(b),
        a.len() > 0 ==> lines_of(a) == seq![a],
        lines_of(Seq::<char>::empty()).len() == 0,
{
    let class = CharClass::Exactly('\n');
    let s = a.push('\n') + b;
    assert forall|j: int| 0 <= j < a.len() implies !class.has(#[trigger] s[j]) by {
        assert(s[j] == a[j]);
    }
    lemma_first_at(s, class, a.len() as int);
    assert(s.take(a.len() as int) =~= a);
    assert(s.skip(a.len() as int + 1) =~= b);
    lemma_first_at(a, class, a.len() as int);
}

/// The words of a text are what stands between white space.
pub proof fn law_words(word: Seq<char>, x: char, rest: Seq<char>)
    requires
        word.len() > 0,
        forall|i: int| 0 <= i < word.len() ==> !is_space(#[trigger] word[i]),
        is_space(x),
    ensures
        words_of(word.push(x) + rest) == seq![word] + words_of(rest),
        words_of(word) == seq![word],
        words_of(seq![x] + rest) == words_of(rest),
        words_of(Seq::<char>::empty()).len() == 0,
{
    let class = CharClass::Space;
    let s = word.push(x) + rest;
    assert(s[0] == word[0]);
    assert(drop_leading(s, class) == s);
    assert forall|j: int| 0 <= j < word.len() implies !class.has(#[trigger] s[j]) by {
        assert(s[j] == word[j]);
    }
    lemma_first_at(s, class, word.len() as int);
    assert(s.take(word.len() as int) =~= word);
    let tail = s.skip(word.len() as int);
    assert(tail =~= seq![x] + rest);
    assert(tail.drop_first() =~= rest);
    assert(drop_leading(tail, class) == drop_leading(rest, class));
    assert(words_of(tail) == words_of(rest));
    assert(drop_leading(word, class) == word);
    lemma_first_at(word, class, word.len() as int);
    assert(word.take(word.len() as int) =~= word);
    assert(word.skip(word.len() as int) =~= Seq::<char>::empty());
    assert(seq![word] + Seq::<Seq<char>>::empty() =~= seq![word]);
    assert(words_of(Seq::<char>::empty()) =~= Seq::empty());
    assert(words_of(word) =~= seq![word]);
}

/// The letters of an ASCII text become small, and nothing else changes.
pub proof fn law_lowercase(s: Seq<char>, i: int)
    requires
        forall|k: int| 0 <= k < s.len() ==> (#[trigger] s[k] as u32) < 128,
        0 <= i < s.len(),
    ensures
        lowercase(s).len() == s.len(),
        'A' <= s[i] <= 'Z' ==> lowercase(s)[i] as u32 == s[i] as u32 + 32,
        !('A' <= s[i] <= 'Z') ==> lowercase(s)[i] == s[i],
        lowercase(s) == ascii_lowered(s),
{
}

/// A whole number in decimal is read as itself, signed or not.
pub proof fn law_decimal_numbers(i: int, lo: int, hi: int)
    ensures
        lo <= i <= hi ==> int_of(decimal_int(i), lo, hi) == Some(i),
        !(lo <= i <= hi) ==> int_of(decimal_int(i), lo, hi) is None,
        0 <= i <= u32::MAX ==> u32_of(decimal_int(i)) == Some(i),
        i < 0 ==> u32_of(decimal_int(i)) is None,
{
    let n = if i < 0 {
        -i
    } else {
        i
    } as nat;
    lemma_decimal(n);
    let s = decimal_int(i);
    if i < 0 {
        assert(s.skip(1) =~= decimal(n));
        assert(s[0] == '-');
    } else {
        assert(is_digit(s[0]));
    }
}

/// A prefix that a text has is taken off it.
pub proof fn law_after_prefix(prefix: Seq<char>, rest: Seq<char>)
    ensures
        after_prefix(prefix + rest, prefix) == Some(rest),
{
    assert((prefix + rest).take(prefix.len() as int) =~= prefix);
    assert((prefix + rest).skip(prefix.len() as int) =~= rest);
}

/// A character that is appended is the one that is taken off again.
pub proof fn law_last_character(s: Seq<char>, c: char)
    ensures
        without_last(s.push(c)) == s,
        without_last(Seq::<char>::empty()).len() == 0,
{
    assert(s.push(c).drop_last() =~= s);
}

} // verus!

//! What holds of every text: white space, splitting, prefixes, case and digits.
use vstd::arithmetic::power::{lemma_pow0, lemma_pow1, lemma_pow_adds, lemma_pow_positive, pow};
use vstd::prelude::*;

use crate::raw_laws;
use crate::text;

verus! {

/// White space is exactly these code points, and no character besides.
pub proof fn law_white_space(c: char)
    ensures
        text::is_space(c) <==> {
            let n = c as u32;
            ||| 0x9 <= n <= 0xd
            ||| n == 0x20
            ||| n == 0x85
            ||| n == 0xa0
            ||| n == 0x1680
            ||| 0x2000 <= n <= 0x200a
            ||| n == 0x2028
            ||| n == 0x2029
            ||| n == 0x202f
            ||| n == 0x205f
            ||| n == 0x3000
        },
{
}

/// Whether every character of a text is white space.
pub open spec fn all_space(s: Seq<char>) -> bool {
    forall|i: int| 0 <= i < s.len() ==> text::is_space(#[trigger] s[i])
}

proof fn lemma_trim_start(s: Seq<char>) -> (lead: Seq<char>)
    ensures
        all_space(lead),
        s == lead + text::trim_start(s),
        text::trim_start(s).len() > 0 ==> !text::is_space(text::trim_start(s)[0]),
    decreases s.len(),
{
    if s.len() > 0 && text::is_space(s[0]) {
        let rest = lemma_trim_start(s.skip(1));
        let lead = seq![s[0]] + rest;
        assert(s =~= seq![s[0]] + s.skip(1));
        assert(s =~= lead + text::trim_start(s));
        lead
    } else {
        assert(s =~= Seq::<char>::empty() + s);
        Seq::empty()
    }
}

proof fn lemma_trim_end(s: Seq<char>) -> (tail: Seq<char>)
    ensures
        all_space(tail),
        s == text::trim_end(s) + tail,
        text::trim_end(s).len() > 0 ==> !text::is_space(text::trim_end(s).last()),
    decreases s.len(),
{
    if s.len() > 0 && text::is_space(s.last()) {
        let rest = lemma_trim_end(s.drop_last());
        let tail = rest.push(s.last());
        assert(s =~= s.drop_last().push(s.last()));
        assert(s =~= text::trim_end(s) + tail);
        tail
    } else {
        assert(s =~= s + Seq::<char>::empty());
        Seq::empty()
    }
}

/// Trimming takes white space off both ends, all of it, and nothing else: what stays has no white
/// space at its ends, and the text is that with white space around it.
pub proof fn law_trimming_takes_white_space_only(s: Seq<char>) -> (ends: (Seq<char>, Seq<char>))
    ensures
        s == ends.0 + text::trimmed(s) + ends.1,
        all_space(ends.0),
        all_space(ends.1),
        text::trimmed(s).len() > 0 ==> !text::is_space(text::trimmed(s)[0]) && !text::is_space(
            text::trimmed(s).last(),
        ),
{
    let lead = lemma_trim_start(s);
    let rest = text::trim_start(s);
    let tail = lemma_trim_end(rest);
    assert(s =~= lead + text::trimmed(s) + tail);
    if text::trimmed(s).len() > 0 {
        assert(rest[0] == text::trimmed(s)[0]);
    }
    (lead, tail)
}

/// Whatever white space stands around a text without any at its ends, trimming gives the text.
pub proof fn law_trimming_undoes_white_space_around(
    lead: Seq<char>,
    core: Seq<char>,
    tail: Seq<char>,
)
    requires
        all_space(lead),
        all_space(tail),
        core.len() > 0 ==> !text::is_space(core[0]) && !text::is_space(core.last()),
    ensures
        text::trimmed(lead + core + tail) == core,
{
    if core.len() == 0 {
        let s = lead + core + tail;
        assert(all_space(s));
        law_blank_texts_trim_to_nothing(s);
        assert(text::trimmed(s) =~= core);
    } else {
        lemma_trim_start_skips(lead, core + tail);
        assert(lead + (core + tail) =~= lead + core + tail);
        assert((core + tail)[0] == core[0]);
        lemma_trim_end_skips(core, tail);
    }
}

proof fn lemma_trim_start_skips(lead: Seq<char>, rest: Seq<char>)
    requires
        all_space(lead),
    ensures
        text::trim_start(lead + rest) == text::trim_start(rest),
    decreases lead.len(),
{
    let s = lead + rest;
    if lead.len() > 0 {
        assert(s[0] == lead[0]);
        assert(s.skip(1) =~= lead.skip(1) + rest);
        lemma_trim_start_skips(lead.skip(1), rest);
    } else {
        assert(s =~= rest);
    }
}

proof fn lemma_trim_end_skips(front: Seq<char>, tail: Seq<char>)
    requires
        all_space(tail),
    ensures
        text::trim_end(front + tail) == text::trim_end(front),
    decreases tail.len(),
{
    let s = front + tail;
    if tail.len() > 0 {
        assert(s.last() == tail[tail.len() - 1]);
        assert(s.drop_last() =~= front + tail.drop_last());
        lemma_trim_end_skips(front, tail.drop_last());
    } else {
        assert(s =~= front);
    }
}

/// Trimming leaves nothing exactly if every character is white space.
pub proof fn law_blank_texts_trim_to_nothing(s: Seq<char>)
    ensures
        text::trimmed(s).len() == 0 <==> all_space(s),
{
    let (lead, tail) = law_trimming_takes_white_space_only(s);
    if text::trimmed(s).len() == 0 {
        assert(s =~= lead + tail);
    } else if all_space(s) {
        assert(s[lead.len() as int] == text::trimmed(s)[0]);
    }
}

/// The pieces of a text hold none of the separators, and the text is the pieces with one separator
/// between each two.
pub proof fn law_splitting_cuts_at_every_separator<A>(s: Seq<A>, sep: A)
    ensures
        text::split_on(s, sep).len() > 0,
        forall|i: int|
            0 <= i < text::split_on(s, sep).len() ==> !(#[trigger] text::split_on(
                s,
                sep,
            )[i]).contains(sep),
        raw_laws::joined(text::split_on(s, sep), sep) == s,
    decreases s.len(),
{
    raw_laws::law_lines_join_to_the_whole(s, sep);
    if s.len() > 0 {
        let before = s.drop_last();
        law_splitting_cuts_at_every_separator(before, sep);
        let pieces = text::split_on(before, sep);
        assert forall|i: int| 0 <= i < text::split_on(s, sep).len() implies !(
        #[trigger] text::split_on(s, sep)[i]).contains(sep) by {
            if i < pieces.len() - 1 || (i < pieces.len() && s.last() == sep) {
                assert(text::split_on(s, sep)[i] == pieces[i]);
            } else if s.last() != sep {
                let last = pieces.last();
                assert(!pieces[pieces.len() - 1].contains(sep));
                assert forall|j: int| 0 <= j < last.push(s.last()).len() implies last.push(
                    s.last(),
                )[j] != sep by {
                    if j < last.len() {
                        assert(last[j] != sep);
                    }
                }
            }
        }
    }
}

/// Pieces without a separator in them, joined by it, split into the same pieces.
pub proof fn law_splitting_undoes_joining<A>(pieces: Seq<Seq<A>>, sep: A)
    requires
        pieces.len() > 0,
        forall|i: int| 0 <= i < pieces.len() ==> !(#[trigger] pieces[i]).contains(sep),
    ensures
        text::split_on(raw_laws::joined(pieces, sep), sep) == pieces,
    decreases pieces.len(),
{
    if pieces.len() == 1 {
        raw_laws::lemma_one_piece(pieces[0], sep);
        assert(pieces =~= seq![pieces[0]]);
    } else {
        let before = pieces.drop_last();
        assert forall|i: int| 0 <= i < before.len() implies !(#[trigger] before[i]).contains(
            sep,
        ) by {
            assert(before[i] == pieces[i]);
        }
        law_splitting_undoes_joining(before, sep);
        let joined = raw_laws::joined(before, sep);
        let ended = joined.push(sep);
        assert(ended.drop_last() =~= joined);
        assert(text::split_on(ended, sep) == before.push(Seq::empty()));
        assert(!pieces[pieces.len() - 1].contains(sep));
        raw_laws::lemma_split_longer(ended, pieces.last(), sep);
        assert(before.push(Seq::empty()).drop_last() =~= before);
        assert(Seq::<A>::empty() + pieces.last() =~= pieces.last());
        assert(before.push(pieces.last()) =~= pieces);
    }
}

/// A text is cut once at the first separator: nothing before it is one, and nothing is lost.
pub proof fn law_cutting_once_is_at_the_first(s: Seq<char>, sep: char)
    ensures
        match text::split_once(s, sep) {
            Some((left, right)) => !left.contains(sep) && s == left + seq![sep] + right,
            None => !s.contains(sep),
        },
    decreases s.len(),
{
    if s.len() > 0 && s[0] != sep {
        let rest = s.skip(1);
        law_cutting_once_is_at_the_first(rest, sep);
        let i = text::position(rest, sep);
        if i < rest.len() {
            lemma_position_bounds(rest, sep);
            assert(s.take(i + 1) =~= seq![s[0]] + rest.take(i));
            assert(s.skip(i + 2) =~= rest.skip(i + 1));
            let left = s.take(i + 1);
            assert forall|j: int| 0 <= j < left.len() implies left[j] != sep by {
                if j > 0 {
                    assert(rest.take(i)[j - 1] == left[j]);
                    assert(rest.take(i)[j - 1] != sep);
                }
            }
            assert(s =~= seq![s[0]] + rest);
            assert(s =~= left + seq![sep] + s.skip(i + 2));
        } else {
            assert forall|j: int| 0 <= j < s.len() implies s[j] != sep by {
                if j > 0 {
                    assert(rest[j - 1] != sep);
                }
            }
        }
    } else if s.len() > 0 {
        assert(s.take(0) =~= Seq::empty());
        assert(s =~= s.take(0) + seq![sep] + s.skip(1));
    }
}

proof fn lemma_position_bounds(s: Seq<char>, c: char)
    ensures
        0 <= text::position(s, c) <= s.len(),
    decreases s.len(),
{
    if s.len() > 0 && s[0] != c {
        lemma_position_bounds(s.skip(1), c);
    }
}

/// Whatever has no separator in it, with a separator after it, is what cutting once gives first.
pub proof fn law_cutting_once_undoes_joining(left: Seq<char>, sep: char, right: Seq<char>)
    requires
        !left.contains(sep),
    ensures
        text::split_once(left + seq![sep] + right, sep) == Some((left, right)),
    decreases left.len(),
{
    let s = left + seq![sep] + right;
    lemma_first_position(left, sep, right);
    assert(s.take(left.len() as int) =~= left);
    assert(s.skip(left.len() as int + 1) =~= right);
}

proof fn lemma_first_position(left: Seq<char>, sep: char, right: Seq<char>)
    requires
        !left.contains(sep),
    ensures
        text::position(left + seq![sep] + right, sep) == left.len(),
    decreases left.len(),
{
    let s = left + seq![sep] + right;
    if left.len() > 0 {
        let rest = left.skip(1);
        assert(left[0] != sep);
        assert forall|j: int| 0 <= j < rest.len() implies rest[j] != sep by {
            assert(left[j + 1] != sep);
        }
        lemma_first_position(rest, sep, right);
        assert(s.skip(1) =~= rest + seq![sep] + right);
    }
}

/// A prefix comes off exactly the texts that start with it, and leaves the rest.
pub proof fn law_prefixes_come_off(prefix: Seq<char>, rest: Seq<char>, s: Seq<char>)
    ensures
        text::strip_prefix(prefix + rest, prefix) == Some(rest),
        text::strip_prefix(s, prefix) == Some(rest) ==> s == prefix + rest,
{
    let whole = prefix + rest;
    assert(whole.subrange(0, prefix.len() as int) =~= prefix);
    assert(whole.skip(prefix.len() as int) =~= rest);
    if text::strip_prefix(s, prefix) == Some(rest) {
        assert(s =~= s.subrange(0, prefix.len() as int) + s.skip(prefix.len() as int));
    }
}

/// In lower case, each of the letters A to Z is the one 32 places on, and every other character is
/// the same; no character comes or goes.
pub proof fn law_lower_case_changes_letters_only(s: Seq<char>, i: int)
    requires
        0 <= i < s.len(),
    ensures
        text::ascii_lowered(s).len() == s.len(),
        65 <= s[i] as u32 <= 90 ==> text::ascii_lowered(s)[i] as u32 == s[i] as u32 + 32,
        !(65 <= s[i] as u32 <= 90) ==> text::ascii_lowered(s)[i] == s[i],
{
}

/// A part occurs in a text exactly if the text is something, then the part, then something.
pub proof fn law_occurring_is_standing_between(
    before: Seq<char>,
    part: Seq<char>,
    after: Seq<char>,
    s: Seq<char>,
)
    ensures
        text::occurs_in(part, before + part + after),
        text::occurs_in(part, s) ==> exists|i: int|
            0 <= i <= s.len() && #[trigger] s.take(i) + part + s.skip(i + part.len()) == s,
{
    let whole = before + part + after;
    let at = before.len() as int;
    assert(whole.subrange(at, at + part.len()) =~= part);
    assert(text::occurs_at(part, whole, at));
    if text::occurs_in(part, s) {
        let i = choose|i: int| text::occurs_at(part, s, i);
        assert(s.take(i) + s.subrange(i, i + part.len()) + s.skip(i + part.len()) =~= s);
    }
}

/// Each character of a number in decimal is the digit of its place, and the first is no zero but
/// for the number zero.
pub proof fn law_decimal_digits_have_their_places(n: nat)
    ensures
        text::decimal(n).len() > 0,
        n > 0 ==> text::decimal(n)[0] != '0',
        n < pow(10, text::decimal(n).len()),
        forall|i: int|
            0 <= i < text::decimal(n).len() ==> (#[trigger] text::decimal(n)[i]) as int == 48 + (n
                / pow(10, (text::decimal(n).len() - 1 - i) as nat) as nat) % 10,
    decreases n,
{
    let digits = text::decimal(n);
    lemma_pow0(10);
    if n < 10 {
        lemma_pow1(10);
        assert(digits.len() == 1);
        assert(n / 1 == n);
    } else {
        let m = n / 10;
        law_decimal_digits_have_their_places(m);
        let front = text::decimal(m);
        lemma_pow1(10);
        lemma_pow_adds(10, 1, front.len());
        assert(n < pow(10, digits.len())) by (nonlinear_arith)
            requires
                m < pow(10, front.len()),
                m == n / 10,
                pow(10, digits.len()) == 10 * pow(10, front.len()),
        ;
        assert forall|i: int| 0 <= i < digits.len() implies (#[trigger] digits[i]) as int == 48 + (n
            / pow(10, (digits.len() - 1 - i) as nat) as nat) % 10 by {
            if i < front.len() {
                let k = (front.len() - 1 - i) as nat;
                assert(digits[i] == front[i]);
                lemma_pow_positive(10, k);
                lemma_pow_adds(10, 1, k);
                let p = pow(10, k) as nat;
                assert(pow(10, (digits.len() - 1 - i) as nat) == 10 * pow(10, k));
                assert((n / 10) / p == n / ((10 * p) as nat)) by {
                    vstd::arithmetic::div_mod::lemma_div_denominator(n as int, 10, p as int);
                }
            } else {
                assert(n / 1 == n);
            }
        }
    }
}

/// The number that digits spell is ten times the one that all but the last spell, and the last.
/// A sign before them changes the number's sign and nothing else.
pub proof fn law_digits_spell_their_number(digits: Seq<char>, last: char)
    requires
        text::is_digits(digits),
        '0' <= last <= '9',
    ensures
        text::integer_in(seq![last]) == Some(last as int - 48),
        text::integer_in(digits) is Some,
        text::integer_in(digits.push(last)) == Some(
            text::integer_in(digits)->0 * 10 + (last as int - 48),
        ),
        text::integer_in(seq!['+'] + digits) == text::integer_in(digits),
        text::integer_in(seq!['-'] + digits) == Some(-text::integer_in(digits)->0),
{
    assert(text::is_digit(digits[0]));
    let one = seq![last];
    assert(one.drop_last() =~= Seq::empty());
    assert(text::unsigned_part(one) == one);
    assert(text::is_digits(one)) by {
        assert forall|i: int| 0 <= i < one.len() implies text::is_digit(#[trigger] one[i]) by {}
    }
    reveal_with_fuel(text::number_of, 2);
    let longer = digits.push(last);
    assert(longer[0] == digits[0]);
    assert(longer.drop_last() =~= digits);
    assert(text::is_digits(longer)) by {
        assert forall|i: int| 0 <= i < longer.len() implies text::is_digit(
            #[trigger] longer[i],
        ) by {
            if i < digits.len() {
                assert(longer[i] == digits[i]);
            }
        }
    }
    assert((seq!['+'] + digits).skip(1) =~= digits);
    assert((seq!['-'] + digits).skip(1) =~= digits);
}

/// A text with anything in it but digits and a sign at its start spells no whole number, nor does
/// one without a digit.
pub proof fn law_other_texts_spell_no_number(s: Seq<char>, i: int)
    ensures
        s.len() == 0 ==> text::integer_in(s) is None,
        0 <= i < s.len() && !('0' <= s[i] <= '9') && !(i == 0 && (s[i] == '+' || s[i] == '-'))
            ==> text::integer_in(s) is None,
        s.len() == 1 && !('0' <= s[0] <= '9') ==> text::integer_in(s) is None,
{
    if 0 <= i < s.len() && !('0' <= s[i] <= '9') && !(i == 0 && (s[i] == '+' || s[i] == '-')) {
        let digits = text::unsigned_part(s);
        if digits == s {
            assert(!text::is_digit(digits[i]));
        } else {
            assert(i > 0);
            assert(digits[i - 1] == s[i]);
            assert(!text::is_digit(digits[i - 1]));
        }
    }
    if s.len() == 1 && !('0' <= s[0] <= '9') {
        let digits = text::unsigned_part(s);
        if digits == s {
            assert(!text::is_digit(digits[0]));
        }
    }
}

} // verus!

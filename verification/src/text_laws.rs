//! What holds of texts, and of the numbers in them.

use vstd::prelude::*;

use crate::date_laws;
use crate::model::MemberView;
use crate::text;

verus! {

/// Texts are ordered by their first difference: the smaller code point comes first, and a text
/// comes before all that it is a proper front of.
pub proof fn the_first_difference_decides(a: Seq<char>, b: Seq<char>, k: int)
    requires
        0 <= k <= a.len(),
        k <= b.len(),
        forall|i: int| 0 <= i < k ==> #[trigger] a[i] == b[i],
    ensures
        k == b.len() ==> !text::text_before(a, b),
        k == a.len() && k < b.len() ==> text::text_before(a, b),
        k < a.len() && k < b.len() && a[k] != b[k] ==> (text::text_before(a, b) <==> (a[k] as int)
            < (b[k] as int)),
    decreases k,
{
    if k > 0 {
        let x = a.drop_first();
        let y = b.drop_first();
        assert(a[0] == b[0]);
        assert forall|i: int| 0 <= i < k - 1 implies #[trigger] x[i] == y[i] by {
            assert(a[i + 1] == b[i + 1]);
        }
        the_first_difference_decides(x, y, k - 1);
    }
}

/// The digits stand for the numbers from zero to nine.
pub proof fn digits_stand_for_numbers(d: nat)
    requires
        d < 10,
    ensures
        text::digit_char(d) as int == '0' as int + d,
        text::is_digit(text::digit_char(d)),
{
}

/// A further digit makes ten times the number, and the digit more.
pub proof fn a_further_digit_counts(s: Seq<char>, d: nat)
    requires
        d < 10,
    ensures
        text::digits_value(Seq::<char>::empty()) == 0,
        text::digits_value(s.push(text::digit_char(d))) == 10 * text::digits_value(s) + d,
{
    assert(s.push(text::digit_char(d)).drop_last() == s);
}

/// A number in decimal has no leading zeros.
pub proof fn decimals_have_no_leading_zeros(n: nat)
    ensures
        n > 0 ==> text::decimal(n)[0] != '0',
        n == 0 ==> text::decimal(n) == seq!['0'],
    decreases n,
{
    if n >= 10 {
        decimals_have_no_leading_zeros(n / 10);
        date_laws::decimal_is_read_back(n / 10);
    }
}

proof fn lemma_leading_zeros(zeros: Seq<char>, s: Seq<char>)
    requires
        forall|i: int| 0 <= i < zeros.len() ==> #[trigger] zeros[i] == '0',
    ensures
        text::digits_value(zeros + s) == text::digits_value(s),
    decreases s.len(), zeros.len(),
{
    if s.len() > 0 {
        lemma_leading_zeros(zeros, s.drop_last());
        assert((zeros + s).drop_last() == zeros + s.drop_last());
    } else if zeros.len() > 0 {
        lemma_leading_zeros(zeros.drop_last(), s);
        assert((zeros + s).drop_last() == zeros.drop_last() + s);
        assert((zeros + s).last() == zeros[zeros.len() - 1]);
    } else {
        assert(zeros + s == s);
    }
}

/// A number is read from its digits, also behind a plus sign and behind leading zeros.
pub proof fn numbers_are_read(zeros: Seq<char>, n: u64)
    requires
        forall|i: int| 0 <= i < zeros.len() ==> #[trigger] zeros[i] == '0',
    ensures
        text::read_u64(zeros + text::decimal(n as nat)) == Some(n),
        text::read_u64(seq!['+'] + zeros + text::decimal(n as nat)) == Some(n),
{
    let digits = text::decimal(n as nat);
    let all = zeros + digits;
    date_laws::decimal_is_read_back(n as nat);
    lemma_leading_zeros(zeros, digits);
    assert forall|i: int| 0 <= i < all.len() implies text::is_digit(#[trigger] all[i]) by {
        if i < zeros.len() {
            assert(zeros[i] == '0');
        } else {
            assert(text::is_digit(digits[i - zeros.len()]));
        }
    }
    assert(text::is_digit(all[0]));
    let signed = seq!['+'] + zeros + digits;
    assert(signed.drop_first() == all);
}

/// Nothing else is read as a number: apart from a plus sign in front there are digits only, at
/// least one, and they stand for the number.
pub proof fn only_numbers_are_read(s: Seq<char>, i: int)
    requires
        text::read_u64(s) is Some,
        0 <= i < s.len(),
    ensures
        text::is_digit(s[i]) || i == 0 && s[0] == '+' && s.len() > 1,
        s[0] != '+' ==> text::read_u64(s)->0 == text::digits_value(s),
        s[0] == '+' ==> text::read_u64(s)->0 == text::digits_value(s.drop_first()),
{
    if s[0] == '+' {
        if i > 0 {
            assert(text::is_digit(s.drop_first()[i - 1]));
        }
    }
}

/// Trimming takes nothing but white space off the two ends, and leaves none there.
pub proof fn trimming_takes_white_space_only(s: Seq<char>) -> (ends: (int, int))
    ensures
        0 <= ends.0 <= ends.1 <= s.len(),
        text::trimmed(s) == s.subrange(ends.0, ends.1),
        forall|i: int| 0 <= i < ends.0 ==> text::is_white(#[trigger] s[i]),
        forall|i: int| ends.1 <= i < s.len() ==> text::is_white(#[trigger] s[i]),
        ends.0 < ends.1 ==> !text::is_white(s[ends.0]) && !text::is_white(s[ends.1 - 1]),
    decreases s.len(),
{
    if s.len() == 0 {
        assert(s.subrange(0, 0) == s);
        (0, 0)
    } else if text::is_white(s[0]) {
        let rest = s.drop_first();
        let (from, to) = trimming_takes_white_space_only(rest);
        assert(rest.subrange(from, to) == s.subrange(from + 1, to + 1));
        assert forall|i: int| 0 <= i < from + 1 implies text::is_white(#[trigger] s[i]) by {
            assert(i > 0 ==> s[i] == rest[i - 1]);
        }
        assert forall|i: int| to + 1 <= i < s.len() implies text::is_white(#[trigger] s[i]) by {
            assert(s[i] == rest[i - 1]);
        }
        (from + 1, to + 1)
    } else if text::is_white(s.last()) {
        let rest = s.drop_last();
        let (from, to) = trimming_takes_white_space_only(rest);
        assert(rest.subrange(from, to) == s.subrange(from, to));
        assert forall|i: int| 0 <= i < from implies text::is_white(#[trigger] s[i]) by {
            assert(s[i] == rest[i]);
        }
        assert forall|i: int| to <= i < s.len() implies text::is_white(#[trigger] s[i]) by {
            assert(i < rest.len() ==> s[i] == rest[i]);
        }
        (from, to)
    } else {
        assert(s.subrange(0, s.len() as int) == s);
        (0, s.len() as int)
    }
}

/// Trimming leaves nothing exactly of a text that is all white space.
pub proof fn blank_is_all_white_space(s: Seq<char>)
    ensures
        text::trimmed(s).len() == 0 <==> forall|i: int|
            0 <= i < s.len() ==> text::is_white(#[trigger] s[i]),
{
    let (from, to) = trimming_takes_white_space_only(s);
}

/// A mention is made of the id and of nothing else of a person.
pub proof fn mentions_hold_the_id(m: MemberView)
    ensures
        ({
            let t = m.mention();
            &&& t.len() >= 4
            &&& t[0] == '<' && t[1] == '@' && t.last() == '>'
            &&& t.subrange(2, t.len() - 1) == text::decimal(m.id as nat)
        }),
{
    reveal_strlit("<@");
    reveal_strlit(">");
    date_laws::decimal_is_read_back(m.id as nat);
    let t = m.mention();
    assert(t.subrange(2, t.len() - 1) =~= text::decimal(m.id as nat));
}

} // verus!

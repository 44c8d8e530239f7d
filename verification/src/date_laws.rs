//! What holds of dates and of their texts.

use vstd::prelude::*;

use crate::date;
use crate::date::CivilDate;
use crate::model;
use crate::text;

verus! {

proof fn lemma_digit_char(d: nat)
    requires
        d < 10,
    ensures
        text::digit_char(d) as int == '0' as int + d,
        text::is_digit(text::digit_char(d)),
{
}

proof fn lemma_digits_push(s: Seq<char>, d: nat)
    requires
        text::all_digits(s),
        d < 10,
    ensures
        text::all_digits(s.push(text::digit_char(d))),
        text::digits_value(s.push(text::digit_char(d))) == 10 * text::digits_value(s) + d,
{
    lemma_digit_char(d);
    assert(s.push(text::digit_char(d)).drop_last() == s);
}

/// A number in decimal is made of digits, and they stand for that number.
pub proof fn decimal_is_read_back(n: nat)
    ensures
        text::decimal(n).len() >= 1,
        text::decimal(n).len() == 1 <==> n < 10,
        text::all_digits(text::decimal(n)),
        text::digits_value(text::decimal(n)) == n,
    decreases n,
{
    if n < 10 {
        lemma_digits_push(Seq::empty(), n);
        assert(text::decimal(n) == Seq::<char>::empty().push(text::digit_char(n)));
        assert(text::digits_value(Seq::<char>::empty()) == 0);
    } else {
        decimal_is_read_back(n / 10);
        lemma_digits_push(text::decimal(n / 10), n % 10);
    }
}

proof fn lemma_padded(n: nat, width: nat)
    requires
        width >= 1,
    ensures
        date::padded(n, width).len() >= width,
        text::all_digits(date::padded(n, width)),
        text::digits_value(date::padded(n, width)) == n,
    decreases width,
{
    if width <= 1 {
        decimal_is_read_back(n);
    } else {
        lemma_padded(n / 10, (width - 1) as nat);
        lemma_digits_push(date::padded(n / 10, (width - 1) as nat), n % 10);
    }
}

proof fn lemma_padded_two(n: nat)
    requires
        n < 100,
    ensures
        date::padded(n, 2).len() == 2,
{
    decimal_is_read_back(n / 10);
    reveal_with_fuel(date::padded, 2);
}

proof fn lemma_padded_four(n: nat)
    requires
        n <= 9999,
    ensures
        date::padded(n, 4).len() == 4,
{
    decimal_is_read_back(n / 10 / 10 / 10);
    reveal_with_fuel(date::padded, 4);
}

proof fn lemma_digit_is_not_white(c: char)
    requires
        text::is_digit(c),
    ensures
        !text::is_white(c),
        c != '/',
        c != '+',
        c != '-',
{
}

/// Of a text that does not begin with white space nothing is taken off its front.
proof fn lemma_no_front_white(s: Seq<char>)
    requires
        s.len() > 0 ==> !text::is_white(s[0]),
    ensures
        date::without_front_white(s) == s,
{
}

proof fn lemma_slash(a: Seq<char>, rest: Seq<char>)
    requires
        forall|i: int| 0 <= i < a.len() ==> #[trigger] a[i] != '/',
    ensures
        model::first_place(a + "/"@ + rest, |c: char| c == '/') == Some(a.len() as int),
        (a + "/"@ + rest).take(a.len() as int) == a,
        (a + "/"@ + rest).skip(a.len() as int + 1) == rest,
{
    reveal_strlit("/");
    let s = a + "/"@ + rest;
    let slash = |c: char| c == '/';
    assert forall|j: int| 0 <= j < a.len() implies !slash(#[trigger] s[j]) by {
        assert(s[j] == a[j]);
    }
    model::lemma_first_place_is(s, slash, a.len() as int);
    assert(s.take(a.len() as int) =~= a);
    assert(s.skip(a.len() as int + 1) =~= rest);
}

proof fn lemma_field_is_read_back(n: nat)
    requires
        n < 100,
    ensures
        date::read_field(date::padded(n, 2)) == Some(n as int),
        forall|i: int|
            0 <= i < date::padded(n, 2).len() ==> #[trigger] date::padded(n, 2)[i] != '/',
{
    let t = date::padded(n, 2);
    lemma_padded(n, 2);
    lemma_padded_two(n);
    assert forall|i: int| 0 <= i < t.len() implies #[trigger] t[i] != '/' by {
        lemma_digit_is_not_white(t[i]);
    }
    lemma_digit_is_not_white(t[0]);
    lemma_no_front_white(t);
}

proof fn lemma_year_is_read_back(year: int)
    ensures
        date::read_year(date::year_text(year)) == Some(year),
        date::year_text(year).len() > 0,
        !text::is_white(date::year_text(year)[0]),
        forall|i: int|
            0 <= i < date::year_text(year).len() ==> #[trigger] date::year_text(year)[i] != '/',
{
    reveal_strlit("-");
    reveal_strlit("+");
    let t = date::year_text(year);
    let n: nat = if year < 0 {
        (-year) as nat
    } else {
        year as nat
    };
    let digits = date::padded(n, 4);
    lemma_padded(n, 4);
    assert forall|i: int| 0 <= i < digits.len() implies #[trigger] digits[i] != '/' by {
        lemma_digit_is_not_white(digits[i]);
    }
    if 0 <= year <= 9999 {
        lemma_padded_four(n);
        lemma_digit_is_not_white(t[0]);
        lemma_no_front_white(t);
    } else {
        assert(t.drop_first() == digits);
        lemma_no_front_white(t);
        assert forall|i: int| 0 <= i < t.len() implies #[trigger] t[i] != '/' by {
            if i > 0 {
                assert(t[i] == digits[i - 1]);
            }
        }
    }
}

/// A date that is written down as `YYYY/MM/DD` is read back as that date.
pub proof fn kept_date_is_read_back(d: CivilDate)
    requires
        d.valid(),
    ensures
        date::read_date(d.iso()) == Some(d),
{
    let y = date::year_text(d.year);
    let m = date::padded(d.month as nat, 2);
    let t = date::padded(d.day as nat, 2);
    lemma_year_is_read_back(d.year);
    lemma_field_is_read_back(d.month as nat);
    lemma_field_is_read_back(d.day as nat);
    assert(d.iso() == y + "/"@ + (m + "/"@ + t));
    lemma_slash(y, m + "/"@ + t);
    lemma_slash(m, t);
    lemma_padded(d.day as nat, 2);
    let s = d.iso();
    assert(s[0] == y[0]);
    assert(s.last() == t.last());
    lemma_digit_is_not_white(t[t.len() - 1]);
    assert(text::trimmed(s) == s);
}

/// What is read as a date is a date.
pub proof fn read_dates_are_valid(raw: Seq<char>)
    ensures
        date::read_date(raw) matches Some(d) ==> d.valid(),
{
}

/// A kept date is shown to people as the date that it is.
pub proof fn kept_date_is_shown(d: CivilDate)
    requires
        d.valid(),
    ensures
        date::pretty_kept(d.iso()) == d.pretty(),
{
    kept_date_is_read_back(d);
}

/// Two dates are written down alike only if they are the same date.
pub proof fn kept_dates_differ(a: CivilDate, b: CivilDate)
    requires
        a.valid(),
        b.valid(),
        a.iso() == b.iso(),
    ensures
        a == b,
{
    kept_date_is_read_back(a);
    kept_date_is_read_back(b);
}

proof fn lemma_before_concat(a: Seq<char>, b: Seq<char>, x: Seq<char>, y: Seq<char>)
    requires
        a.len() == b.len(),
    ensures
        text::text_before(a + x, b + y) == (text::text_before(a, b) || (a == b
            && text::text_before(x, y))),
    decreases a.len(),
{
    if a.len() == 0 {
        assert(a + x == x);
        assert(b + y == y);
        assert(a =~= b);
    } else {
        assert((a + x).drop_first() == a.drop_first() + x);
        assert((b + y).drop_first() == b.drop_first() + y);
        lemma_before_concat(a.drop_first(), b.drop_first(), x, y);
        assert(a == seq![a[0]] + a.drop_first());
        assert(b == seq![b[0]] + b.drop_first());
    }
}

proof fn lemma_digit_order(m: nat, n: nat)
    requires
        m < 10,
        n < 10,
    ensures
        text::text_before(seq![text::digit_char(m)], seq![text::digit_char(n)]) == (m < n),
        seq![text::digit_char(m)] == seq![text::digit_char(n)] <==> m == n,
{
    lemma_digit_char(m);
    lemma_digit_char(n);
    let a = seq![text::digit_char(m)];
    let b = seq![text::digit_char(n)];
    reveal_with_fuel(text::text_before, 2);
    assert(a[0] == text::digit_char(m));
    assert(b[0] == text::digit_char(n));
    if m == n {
        text::text_before_is_irreflexive(a);
    }
}

proof fn lemma_padded_order(m: nat, n: nat, width: nat)
    requires
        width >= 1,
        date::padded(m, width).len() == width,
        date::padded(n, width).len() == width,
    ensures
        text::text_before(date::padded(m, width), date::padded(n, width)) == (m < n),
        date::padded(m, width) == date::padded(n, width) <==> m == n,
    decreases width,
{
    lemma_padded(m, width);
    lemma_padded(n, width);
    if width <= 1 {
        decimal_is_read_back(m);
        decimal_is_read_back(n);
        lemma_digit_order(m, n);
    } else {
        let a = date::padded(m / 10, (width - 1) as nat);
        let b = date::padded(n / 10, (width - 1) as nat);
        lemma_padded_order(m / 10, n / 10, (width - 1) as nat);
        lemma_digit_order(m % 10, n % 10);
        let x = seq![text::digit_char(m % 10)];
        let y = seq![text::digit_char(n % 10)];
        lemma_before_concat(a, b, x, y);
        assert(date::padded(m, width) == a + x);
        assert(date::padded(n, width) == b + y);
    }
}

/// Dates that are written down as `YYYY/MM/DD` sort chronologically as plain text, as long as
/// their years have four digits.
pub proof fn kept_dates_sort_chronologically(a: CivilDate, b: CivilDate)
    requires
        a.valid(),
        b.valid(),
        0 <= a.year <= 9999,
        0 <= b.year <= 9999,
    ensures
        text::text_before(a.iso(), b.iso()) == a.earlier(b),
{
    lemma_padded_four(a.year as nat);
    lemma_padded_four(b.year as nat);
    lemma_padded_two(a.month as nat);
    lemma_padded_two(b.month as nat);
    lemma_padded_two(a.day as nat);
    lemma_padded_two(b.day as nat);
    lemma_padded_order(a.year as nat, b.year as nat, 4);
    lemma_padded_order(a.month as nat, b.month as nat, 2);
    lemma_padded_order(a.day as nat, b.day as nat, 2);
    let ya = date::year_text(a.year);
    let yb = date::year_text(b.year);
    let ma = date::padded(a.month as nat, 2);
    let mb = date::padded(b.month as nat, 2);
    let da = date::padded(a.day as nat, 2);
    let db = date::padded(b.day as nat, 2);
    assert(a.iso() == ya + ("/"@ + (ma + ("/"@ + da))));
    assert(b.iso() == yb + ("/"@ + (mb + ("/"@ + db))));
    lemma_before_concat(ya, yb, "/"@ + (ma + ("/"@ + da)), "/"@ + (mb + ("/"@ + db)));
    lemma_before_concat("/"@, "/"@, ma + ("/"@ + da), mb + ("/"@ + db));
    lemma_before_concat(ma, mb, "/"@ + da, "/"@ + db);
    lemma_before_concat("/"@, "/"@, da, db);
    text::text_before_is_irreflexive("/"@);
}

proof fn lemma_trimmed_front(s: Seq<char>, white: Seq<char>)
    requires
        forall|i: int| 0 <= i < white.len() ==> text::is_white(#[trigger] white[i]),
    ensures
        text::trimmed(white + s) == text::trimmed(s),
    decreases white.len(),
{
    if white.len() == 0 {
        assert(white + s == s);
    } else {
        assert((white + s)[0] == white[0]);
        assert((white + s).drop_first() == white.drop_first() + s);
        lemma_trimmed_front(s, white.drop_first());
    }
}

proof fn lemma_trimmed_back(s: Seq<char>, white: Seq<char>)
    requires
        forall|i: int| 0 <= i < white.len() ==> text::is_white(#[trigger] white[i]),
    ensures
        text::trimmed(s + white) == text::trimmed(s),
    decreases s.len() + white.len(),
{
    if white.len() == 0 {
        assert(s + white == s);
    } else if s.len() == 0 {
        assert(s + white == white + s);
        lemma_trimmed_front(s, white);
    } else if text::is_white(s[0]) {
        assert((s + white).drop_first() == s.drop_first() + white);
        lemma_trimmed_back(s.drop_first(), white);
    } else {
        assert((s + white).last() == white.last());
        assert(text::is_white(white[white.len() - 1]));
        assert((s + white).drop_last() == s + white.drop_last());
        lemma_trimmed_back(s, white.drop_last());
    }
}

/// White space around a date does not matter.
pub proof fn white_space_does_not_matter(front: Seq<char>, raw: Seq<char>, back: Seq<char>)
    requires
        forall|i: int| 0 <= i < front.len() ==> text::is_white(#[trigger] front[i]),
        forall|i: int| 0 <= i < back.len() ==> text::is_white(#[trigger] back[i]),
    ensures
        date::read_date(front + raw + back) == date::read_date(raw),
{
    assert(front + raw + back == front + (raw + back));
    lemma_trimmed_front(raw + back, front);
    lemma_trimmed_back(raw, back);
}

/// A date is read from a text as the date that the text without the white space around it stands
/// for, and a text that stands for none is no date.
pub proof fn dates_are_read_without_the_white_space_around(raw: Seq<char>)
    ensures
        date::read_date(raw) == date::read_ymd(text::trimmed(raw)),
{
}

proof fn lemma_front_white(white: Seq<char>, s: Seq<char>)
    requires
        forall|i: int| 0 <= i < white.len() ==> text::is_white(#[trigger] white[i]),
        s.len() > 0 ==> !text::is_white(s[0]),
    ensures
        date::without_front_white(white + s) == s,
    decreases white.len(),
{
    if white.len() == 0 {
        assert(white + s == s);
        lemma_no_front_white(s);
    } else {
        assert((white + s)[0] == white[0]);
        assert((white + s).drop_first() == white.drop_first() + s);
        assert forall|i: int| 0 <= i < white.drop_first().len() implies text::is_white(
            #[trigger] white.drop_first()[i],
        ) by {
            assert(white.drop_first()[i] == white[i + 1]);
        }
        lemma_front_white(white.drop_first(), s);
    }
}

proof fn lemma_padded_field(white: Seq<char>, digits: Seq<char>)
    requires
        forall|i: int| 0 <= i < white.len() ==> text::is_white(#[trigger] white[i]),
        1 <= digits.len() <= 2,
        text::all_digits(digits),
    ensures
        date::read_field(white + digits) == Some(text::digits_value(digits) as int),
        forall|i: int| 0 <= i < (white + digits).len() ==> #[trigger] (white + digits)[i] != '/',
{
    lemma_digit_is_not_white(digits[0]);
    lemma_front_white(white, digits);
    assert forall|i: int| 0 <= i < (white + digits).len() implies #[trigger] (white + digits)[i]
        != '/' by {
        if i < white.len() {
            assert((white + digits)[i] == white[i]);
        } else {
            assert((white + digits)[i] == digits[i - white.len()]);
            lemma_digit_is_not_white(digits[i - white.len()]);
        }
    }
}

/// Every date is read from its numbers: a year of one to four digits, or of any number of digits
/// behind a sign, then a month and a day of one or two digits, which white space may precede.
pub proof fn dates_are_read_from_their_numbers(
    d: CivilDate,
    sign: Seq<char>,
    year: Seq<char>,
    before_month: Seq<char>,
    month: Seq<char>,
    before_day: Seq<char>,
    day: Seq<char>,
)
    requires
        d.valid(),
        text::all_digits(year),
        text::all_digits(month),
        text::all_digits(day),
        sign.len() == 0 && 1 <= year.len() <= 4 || (sign == seq!['+'] || sign == seq!['-'])
            && year.len() >= 1,
        1 <= month.len() <= 2,
        1 <= day.len() <= 2,
        forall|i: int| 0 <= i < before_month.len() ==> text::is_white(#[trigger] before_month[i]),
        forall|i: int| 0 <= i < before_day.len() ==> text::is_white(#[trigger] before_day[i]),
        d.year == if sign == seq!['-'] {
            -(text::digits_value(year) as int)
        } else {
            text::digits_value(year) as int
        },
        d.month == text::digits_value(month),
        d.day == text::digits_value(day),
    ensures
        date::read_date(sign + year + "/"@ + before_month + month + "/"@ + before_day + day) == Some(
            d,
        ),
{
    let y = sign + year;
    let m = before_month + month;
    let t = before_day + day;
    let raw = y + "/"@ + before_month + month + "/"@ + before_day + day;
    assert(raw =~= y + "/"@ + (m + "/"@ + t));
    lemma_padded_field(before_month, month);
    lemma_padded_field(before_day, day);
    lemma_digit_is_not_white(year[0]);
    lemma_digit_is_not_white(day[day.len() - 1]);
    assert forall|i: int| 0 <= i < y.len() implies #[trigger] y[i] != '/' by {
        if i < sign.len() {
            assert(y[i] == sign[i]);
        } else {
            assert(y[i] == year[i - sign.len()]);
            lemma_digit_is_not_white(year[i - sign.len()]);
        }
    }
    if sign.len() == 0 {
        assert(y =~= year);
    } else {
        assert(y[0] == sign[0]);
        assert(y.drop_first() =~= year);
    }
    lemma_no_front_white(y);
    lemma_slash(y, m + "/"@ + t);
    lemma_slash(m, t);
    assert(raw[0] == y[0]);
    assert(raw.last() == day[day.len() - 1]);
    assert(text::trimmed(raw) == raw);
}

/// A kept date has ten characters, as long as its year has four digits: the year, the month and the
/// day in digits, with slashes between them.
pub proof fn kept_dates_have_one_form(d: CivilDate)
    requires
        d.valid(),
        0 <= d.year <= 9999,
    ensures
        d.iso().len() == 10,
        d.iso()[4] == '/',
        d.iso()[7] == '/',
        text::all_digits(d.iso().subrange(0, 4)),
        text::digits_value(d.iso().subrange(0, 4)) == d.year,
        text::all_digits(d.iso().subrange(5, 7)),
        text::digits_value(d.iso().subrange(5, 7)) == d.month,
        text::all_digits(d.iso().subrange(8, 10)),
        text::digits_value(d.iso().subrange(8, 10)) == d.day,
{
    reveal_strlit("/");
    lemma_padded(d.year as nat, 4);
    lemma_padded_four(d.year as nat);
    lemma_padded(d.month as nat, 2);
    lemma_padded_two(d.month as nat);
    lemma_padded(d.day as nat, 2);
    lemma_padded_two(d.day as nat);
    assert(d.iso().subrange(0, 4) =~= date::padded(d.year as nat, 4));
    assert(d.iso().subrange(5, 7) =~= date::padded(d.month as nat, 2));
    assert(d.iso().subrange(8, 10) =~= date::padded(d.day as nat, 2));
}

proof fn lemma_name_lengths(d: CivilDate)
    requires
        d.valid(),
    ensures
        date::weekday_name(d.day_number() % 7).len() == 3,
        date::month_name(d.month).len() == 3,
{
    reveal_strlit("Sun");
    reveal_strlit("Mon");
    reveal_strlit("Tue");
    reveal_strlit("Wed");
    reveal_strlit("Thu");
    reveal_strlit("Fri");
    reveal_strlit("Sat");
    reveal_strlit("Jan");
    reveal_strlit("Feb");
    reveal_strlit("Mar");
    reveal_strlit("Apr");
    reveal_strlit("May");
    reveal_strlit("Jun");
    reveal_strlit("Jul");
    reveal_strlit("Aug");
    reveal_strlit("Sep");
    reveal_strlit("Oct");
    reveal_strlit("Nov");
    reveal_strlit("Dec");
}

/// The form for people to read has the day of the week, the day in two digits, the month and the
/// year, each of the date that it is.
pub proof fn the_form_for_people(d: CivilDate)
    requires
        d.valid(),
    ensures
        ({
            let p = d.pretty();
            &&& p.len() >= 15
            &&& p.subrange(0, 3) == date::weekday_name(d.day_number() % 7)
            &&& text::all_digits(p.subrange(4, 6))
            &&& text::digits_value(p.subrange(4, 6)) == d.day
            &&& p.subrange(7, 10) == date::month_name(d.month)
            &&& p[3] == ' ' && p[6] == ' ' && p[10] == ' '
            &&& p.skip(11) == date::year_text(d.year)
            &&& date::read_year(p.skip(11)) == Some(d.year)
        }),
{
    reveal_strlit(" ");
    reveal_strlit("-");
    reveal_strlit("+");
    lemma_name_lengths(d);
    lemma_padded(d.day as nat, 2);
    lemma_padded_two(d.day as nat);
    lemma_year_is_read_back(d.year);
    let n: nat = if d.year < 0 {
        (-d.year) as nat
    } else {
        d.year as nat
    };
    lemma_padded(n, 4);
    let p = d.pretty();
    assert(p.subrange(0, 3) =~= date::weekday_name(d.day_number() % 7));
    assert(p.subrange(4, 6) =~= date::padded(d.day as nat, 2));
    assert(p.subrange(7, 10) =~= date::month_name(d.month));
    assert(p.skip(11) =~= date::year_text(d.year));
}

/// A kept text is shown as the date that is read from it, and as it is if none is.
pub proof fn kept_texts_are_shown(kept: Seq<char>)
    ensures
        date::read_date(kept) matches Some(d) ==> date::pretty_kept(kept) == d.pretty(),
        date::read_date(kept) is None ==> date::pretty_kept(kept) == kept,
{
}

/// The number of the day goes up by one from each day to the following one, across the ends of
/// months and of years, and the first day of year 1 has number 1. So the days of the week, which go
/// by that number, go round without a gap.
pub proof fn days_are_counted_one_by_one(a: CivilDate, b: CivilDate)
    requires
        a.valid(),
        b.valid(),
        ({
            ||| b == CivilDate { day: a.day + 1, ..a }
            ||| a.day == date::days_in_month(a.year, a.month) && b == CivilDate {
                month: a.month + 1,
                day: 1,
                ..a
            }
            ||| a.month == 12 && a.day == 31 && b == CivilDate {
                year: a.year + 1,
                month: 1,
                day: 1,
            }
        }),
    ensures
        b.day_number() == a.day_number() + 1,
        (CivilDate { year: 1, month: 1, day: 1 }).day_number() == 1,
        date::weekday_name(1) == "Mon"@,
{
}

/// The months have the days that they have, and February has one more in every fourth year, but
/// for the years that end a century and no fourth one.
pub proof fn months_have_their_days(year: int, month: int)
    requires
        1 <= month <= 12,
    ensures
        month == 4 || month == 6 || month == 9 || month == 11 ==> date::days_in_month(year, month)
            == 30,
        month == 1 || month == 3 || month == 5 || month == 7 || month == 8 || month == 10 || month
            == 12 ==> date::days_in_month(year, month) == 31,
        month == 2 && year % 4 != 0 ==> date::days_in_month(year, month) == 28,
        month == 2 && year % 4 == 0 && year % 100 != 0 ==> date::days_in_month(year, month) == 29,
        month == 2 && year % 100 == 0 && year % 400 != 0 ==> date::days_in_month(year, month) == 28,
        month == 2 && year % 400 == 0 ==> date::days_in_month(year, month) == 29,
{
}

/// Years that do not have four digits carry a sign, and behind it they are written in full, in at
/// least four digits.
pub proof fn other_years_carry_a_sign(year: int)
    ensures
        year > 9999 ==> date::year_text(year) == "+"@ + text::decimal(year as nat),
        year < -999 ==> date::year_text(year) == "-"@ + text::decimal((-year) as nat),
        -999 <= year < 0 ==> date::year_text(year).len() == 5 && date::year_text(year)[0] == '-'
            && text::digits_value(date::year_text(year).drop_first()) == -year,
        1000 <= year <= 9999 ==> date::year_text(year) == text::decimal(year as nat),
{
    reveal_strlit("-");
    let n: nat = if year < 0 {
        (-year) as nat
    } else {
        year as nat
    };
    reveal_with_fuel(date::padded, 4);
    lemma_padded(n, 4);
    if n <= 9999 {
        lemma_padded_four(n);
    }
    if n >= 1000 {
        assert(date::padded(n / 1000, 1) == text::decimal(n / 1000));
        assert(date::padded(n / 100, 2) == text::decimal(n / 100)) by {
            assert(n / 100 / 10 == n / 1000);
        }
        assert(date::padded(n / 10, 3) == text::decimal(n / 10)) by {
            assert(n / 10 / 10 == n / 100);
        }
    }
    if -999 <= year < 0 {
        assert(date::year_text(year).drop_first() =~= date::padded(n, 4));
    }
}

} // verus!

//! Texts are cut, joined and read back without loss.

use crate::text;
use vstd::prelude::*;

verus! {

/// A text is cut at the first separator: what is before it has none, and the two parts
/// with the separator between them are the text. Without a separator there is no cut.
pub proof fn text_is_cut_at_the_first_separator<'a>(
    s: &'a str,
    c: char,
    r: Option<(&'a str, &'a str)>,
)
    requires
        call_ensures(text::split_once, (s, c), r),
    ensures
        r is None <==> !s@.contains(c),
        r matches Some(p) ==> s@ == p.0@.push(c) + p.1@ && !p.0@.contains(c),
{
    text::lemma_position(s@, c);
    if let Some(p) = r {
        let i = text::position(s@, c);
        assert(p.0@ == s@.take(i) && p.1@ == s@.skip(i + 1));
        assert(s@ =~= p.0@.push(c) + p.1@);
    }
}

/// A leading character is taken off once, and a leading text as a whole.
pub proof fn lead_is_taken_off<'a>(
    s: &'a str,
    c: char,
    p: &str,
    r: Option<&'a str>,
    q: Option<&'a str>,
)
    requires
        call_ensures(text::strip_char, (s, c), r),
        call_ensures(text::strip_prefix, (s, p), q),
    ensures
        r matches Some(t) ==> s@ == seq![c] + t@,
        r is None <==> (s@.len() == 0 || s@[0] != c),
        q matches Some(t) ==> s@ == p@ + t@,
        forall|t: Seq<char>| s@ == #[trigger] (p@ + t) ==> q is Some,
{
    if let Some(t) = r {
        assert(s@ =~= seq![c] + s@.skip(1));
    }
    if let Some(t) = q {
        assert(s@ =~= s@.take(p@.len() as int) + s@.skip(p@.len() as int));
    }
    assert forall|t: Seq<char>| s@ == #[trigger] (p@ + t) implies q is Some by {
        assert((p@ + t).take(p@.len() as int) =~= p@);
        assert(text::starts_with(s@, p@));
    }
}

/// All of the leading characters are taken off, and nothing else.
pub proof fn leading_run_is_taken_off<'a>(s: &'a str, c: char, r: &'a str)
    requires
        call_ensures(text::trim_start, (s, c), r),
    ensures
        r@.len() <= s@.len(),
        r@ == s@.skip(s@.len() - r@.len()),
        forall|i: int| 0 <= i < s@.len() - r@.len() ==> #[trigger] s@[i] == c,
        r@.len() > 0 ==> r@[0] != c,
{
    text::lemma_run_length(s@, c);
}

/// The words of a text: what stands between separators and is not empty, in order.
pub proof fn words_stand_between_separators(w: Seq<char>, rest: Seq<char>, c: char)
    requires
        !w.contains(c),
    ensures
        w.len() > 0 ==> text::nonempty(text::pieces(w, c)) == seq![w],
        w.len() == 0 ==> text::nonempty(text::pieces(w, c)).len() == 0,
        w.len() > 0 ==> text::nonempty(text::pieces(w.push(c) + rest, c)) == seq![w]
            + text::nonempty(text::pieces(rest, c)),
        w.len() == 0 ==> text::nonempty(text::pieces(w.push(c) + rest, c)) == text::nonempty(
            text::pieces(rest, c),
        ),
{
    let s = w.push(c) + rest;
    text::lemma_position(w, c);
    text::lemma_position_is(s, c, w.len() as int);
    assert(s.take(w.len() as int) =~= w);
    assert(s.skip(w.len() as int + 1) =~= rest);
    let ps = text::pieces(s, c);
    assert(ps == seq![w] + text::pieces(rest, c));
    assert(ps.drop_first() =~= text::pieces(rest, c));
    let one = text::pieces(w, c);
    assert(one.drop_first() =~= Seq::<Seq<char>>::empty());
    reveal_with_fuel(text::nonempty, 2);
}

/// The words of a text are split off with its separator.
pub proof fn words_are_split_off<'a>(s: &'a str, c: char, r: Vec<&'a str>, i: int)
    requires
        call_ensures(text::split_nonempty, (s, c), r),
        0 <= i < r@.len(),
    ensures
        r@[i]@.len() > 0,
        !r@[i]@.contains(c),
{
    lemma_pieces(s@, c);
    lemma_nonempty(text::pieces(s@, c), c);
    assert(r@[i]@ == text::str_views(r@)[i]);
}

proof fn lemma_pieces(s: Seq<char>, c: char)
    ensures
        forall|i: int|
            0 <= i < text::pieces(s, c).len() ==> !(#[trigger] text::pieces(s, c)[i]).contains(c),
    decreases s.len(),
{
    text::lemma_position(s, c);
    let i = text::position(s, c);
    if i < s.len() {
        let rest = text::pieces(s.skip(i + 1), c);
        lemma_pieces(s.skip(i + 1), c);
        assert forall|k: int| 0 <= k < text::pieces(s, c).len() implies !(#[trigger] text::pieces(
            s,
            c,
        )[k]).contains(c) by {
            if k > 0 {
                assert(text::pieces(s, c)[k] == rest[k - 1]);
            }
        }
    }
}

proof fn lemma_nonempty(ps: Seq<Seq<char>>, c: char)
    requires
        forall|i: int| 0 <= i < ps.len() ==> !(#[trigger] ps[i]).contains(c),
    ensures
        forall|i: int|
            0 <= i < text::nonempty(ps).len() ==> !(#[trigger] text::nonempty(ps)[i]).contains(c)
                && text::nonempty(ps)[i].len() > 0,
    decreases ps.len(),
{
    if ps.len() > 0 {
        let d = ps.drop_first();
        assert forall|i: int| 0 <= i < d.len() implies !(#[trigger] d[i]).contains(c) by {
            assert(d[i] == ps[i + 1]);
        }
        lemma_nonempty(d, c);
        let l = text::nonempty(ps);
        assert forall|i: int| 0 <= i < l.len() implies !(#[trigger] l[i]).contains(c) && l[i].len()
            > 0 by {
            if ps[0].len() > 0 && i > 0 {
                assert(l[i] == text::nonempty(d)[i - 1]);
            }
        }
    }
}

/// Lowering changes the letters `A` to `Z` to `a` to `z` and nothing else.
pub proof fn capitals_are_lowered(s: &str, r: String, i: int)
    requires
        call_ensures(text::to_lower, (s,), r),
        0 <= i < s@.len(),
    ensures
        r@.len() == s@.len(),
        'A' <= s@[i] <= 'Z' ==> r@[i] as int == s@[i] as int + 32,
        !('A' <= s@[i] <= 'Z') ==> r@[i] == s@[i],
{
}

/// Two texts are the same but for case when they are as long and their characters are
/// pairwise the same but for case.
pub proof fn case_is_ignored(a: &str, b: &str, r: bool)
    requires
        call_ensures(text::eq_ignore_case, (a, b), r),
    ensures
        r <==> a@.len() == b@.len() && (forall|i: int|
            0 <= i < a@.len() ==> text::lower_char(#[trigger] a@[i]) == text::lower_char(b@[i])),
        a@ == b@ ==> r,
{
    let x = text::lower(a@);
    let y = text::lower(b@);
    if r {
        assert(x.len() == y.len());
        assert forall|i: int| 0 <= i < a@.len() implies text::lower_char(#[trigger] a@[i])
            == text::lower_char(b@[i]) by {
            assert(x[i] == y[i]);
        }
    }
    if a@.len() == b@.len() && (forall|i: int|
        0 <= i < a@.len() ==> text::lower_char(#[trigger] a@[i]) == text::lower_char(b@[i])) {
        assert(x =~= y);
    }
}

/// Of the first 128 characters, the space and those from the tab to the carriage return
/// are white.
pub proof fn blanks_are_white(c: char)
    requires
        (c as int) < 128,
    ensures
        text::is_white(c) <==> c == ' ' || ('\t' <= c <= '\r'),
{
}

/// Trimming takes the white characters off both ends and keeps everything between.
pub proof fn white_ends_are_taken_off<'a>(s: &'a str, r: &'a str)
    requires
        call_ensures(text::trim, (s,), r),
    ensures
        exists|i: int|
            0 <= i <= i + r@.len() <= s@.len() && #[trigger] s@.subrange(i, i + r@.len()) == r@ && (
            forall|j: int| 0 <= j < i ==> text::is_white(#[trigger] s@[j])) && (forall|j: int|
                i + r@.len() <= j < s@.len() ==> text::is_white(#[trigger] s@[j])),
        r@.len() > 0 ==> !text::is_white(r@[0]) && !text::is_white(r@.last()),
{
    lemma_start(s@);
    let t = text::trimmed_start(s@);
    lemma_end(t);
    let i = s@.len() - t.len();
    assert(s@.subrange(i, i + r@.len()) =~= r@);
    assert forall|j: int| i + r@.len() <= j < s@.len() implies text::is_white(#[trigger] s@[j]) by {
        assert(s@[j] == t[j - i]);
    }
}

proof fn lemma_start(s: Seq<char>)
    ensures
        text::trimmed_start(s).len() <= s.len(),
        text::trimmed_start(s) == s.skip(s.len() - text::trimmed_start(s).len()),
        forall|i: int|
            0 <= i < s.len() - text::trimmed_start(s).len() ==> text::is_white(#[trigger] s[i]),
        text::trimmed_start(s).len() > 0 ==> !text::is_white(text::trimmed_start(s)[0]),
    decreases s.len(),
{
    if s.len() > 0 && text::is_white(s[0]) {
        let d = s.drop_first();
        lemma_start(d);
        let t = text::trimmed_start(s);
        assert(s.skip(s.len() - t.len()) =~= d.skip(d.len() - t.len()));
        assert forall|i: int| 0 <= i < s.len() - t.len() implies text::is_white(
            #[trigger] s[i],
        ) by {
            if i > 0 {
                assert(s[i] == d[i - 1]);
            }
        }
    } else {
        assert(s.skip(0) =~= s);
    }
}

proof fn lemma_end(s: Seq<char>)
    ensures
        text::trimmed_end(s).len() <= s.len(),
        text::trimmed_end(s) == s.take(text::trimmed_end(s).len() as int),
        forall|i: int|
            text::trimmed_end(s).len() <= i < s.len() ==> text::is_white(#[trigger] s[i]),
        text::trimmed_end(s).len() > 0 ==> !text::is_white(text::trimmed_end(s).last()),
    decreases s.len(),
{
    if s.len() > 0 && text::is_white(s.last()) {
        let d = s.drop_last();
        lemma_end(d);
        let t = text::trimmed_end(s);
        assert(s.take(t.len() as int) =~= d.take(t.len() as int));
        assert forall|i: int| t.len() <= i < s.len() implies text::is_white(#[trigger] s[i]) by {
            if i < d.len() {
                assert(s[i] == d[i]);
            }
        }
    } else {
        assert(s.take(s.len() as int) =~= s);
    }
}

/// Trimming leaves nothing of a text exactly when all of it is white.
pub proof fn white_texts_trim_to_nothing(s: Seq<char>)
    ensures
        text::trimmed(s).len() == 0 <==> (forall|i: int|
            0 <= i < s.len() ==> text::is_white(#[trigger] s[i])),
{
    lemma_start(s);
    let t = text::trimmed_start(s);
    lemma_end(t);
    if text::trimmed(s).len() == 0 {
        assert forall|i: int| 0 <= i < s.len() implies text::is_white(#[trigger] s[i]) by {
            let from = s.len() - t.len();
            if i >= from {
                assert(s[i] == t[i - from]);
            }
        }
    } else {
        assert(t[0] == s[s.len() - t.len()]);
    }
}

proof fn lemma_decimal(n: nat)
    ensures
        text::decimal(n).len() > 0,
        text::all_digits(text::decimal(n)),
        text::digits_value(text::decimal(n)) == n,
        n > 0 ==> text::decimal(n)[0] != '0',
    decreases n,
{
    if n < 10 {
        reveal_with_fuel(text::digits_value, 2);
        assert(text::decimal(n).drop_last() =~= Seq::empty());
    } else {
        lemma_decimal(n / 10);
        let head = text::decimal(n / 10);
        assert(text::decimal(n).drop_last() =~= head);
        assert(text::decimal(n)[0] == head[0]);
    }
}

/// A number is written with digits only, without a leading zero, so that they spell the
/// number.
pub proof fn numbers_are_written_in_digits(n: u64, s: String)
    requires
        call_ensures(text::decimal_string, (n,), s),
    ensures
        s@.len() > 0,
        forall|i: int| 0 <= i < s@.len() ==> '0' <= #[trigger] s@[i] <= '9',
        text::digits_value(s@) == n,
        s@[0] == '0' ==> s@ == seq!['0'],
{
    lemma_decimal(n as nat);
    assert forall|i: int| 0 <= i < s@.len() implies '0' <= #[trigger] s@[i] <= '9' by {
        assert(text::is_digit(s@[i]));
    }
    if n == 0 {
        assert(s@ =~= seq!['0']);
    }
}

/// One more digit counts tenfold what is before it.
pub proof fn digits_count_tenfold(s: Seq<char>, c: char)
    ensures
        text::digits_value(Seq::empty()) == 0,
        text::digits_value(s.push(c)) == 10 * text::digits_value(s) + (c as int - '0' as int),
{
    assert(s.push(c).drop_last() =~= s);
}

/// A number is read as it was written, sign and all.
pub proof fn numbers_are_read_as_written(n: i64, s: String, t: &str, r: Option<i64>)
    requires
        call_ensures(text::signed_string, (n,), s),
        call_ensures(text::parse_i64, (t,), r),
    ensures
        t@ == s@ ==> r == Some(n),
        t@ == seq!['+'] + s@ && n >= 0 ==> r == Some(n),
{
    let m: nat = if n < 0 {
        (-n) as nat
    } else {
        n as nat
    };
    lemma_decimal(m);
    let d = text::decimal(m);
    assert(text::is_digit(d[0]));
    assert((seq!['-'] + d).skip(1) =~= d);
    assert((seq!['+'] + d).skip(1) =~= d);
}

/// What is no number is read as none: nothing at all, a sign alone, or a character that is
/// no digit behind the first.
pub proof fn other_texts_are_no_numbers(t: &str, r: Option<i64>)
    requires
        call_ensures(text::parse_i64, (t,), r),
    ensures
        t@.len() == 0 ==> r is None,
        t@ == seq!['-'] || t@ == seq!['+'] ==> r is None,
        forall|i: int| 1 <= i < t@.len() && !('0' <= #[trigger] t@[i] <= '9') ==> r is None,
        t@.len() > 0 && t@[0] != '-' && t@[0] != '+' && !('0' <= t@[0] <= '9') ==> r is None,
{
    assert forall|i: int| 1 <= i < t@.len() && !('0' <= #[trigger] t@[i] <= '9') implies r is None by {
        let body = text::unsigned_part(t@);
        if body.len() < t@.len() {
            assert(body[i - 1] == t@[i]);
            assert(!text::is_digit(body[i - 1]));
        } else {
            assert(!text::is_digit(body[i]));
        }
    }
    if t@.len() > 0 && t@[0] != '-' && t@[0] != '+' && !('0' <= t@[0] <= '9') {
        assert(!text::is_digit(text::unsigned_part(t@)[0]));
    }
}

} // verus!

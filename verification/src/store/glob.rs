//! IRC-style hostmask matching.

use crate::text;
use vstd::prelude::*;

verus! {

/// Whether the target `t` matches the pattern `p`: `*` stands for any text
/// (nothing, or one character more of it), `?` for exactly one character, and
/// any other character for itself up to ASCII case.
pub open spec fn glob(p: Seq<char>, t: Seq<char>) -> bool
    decreases p.len(), t.len(),
{
    if p.len() == 0 {
        t.len() == 0
    } else if p[0] == '*' {
        glob(p.drop_first(), t) || (t.len() > 0 && glob(p, t.drop_first()))
    } else {
        t.len() > 0 && (p[0] == '?' || text::lower_char(p[0]) == text::lower_char(t[0])) && glob(
            p.drop_first(),
            t.drop_first(),
        )
    }
}

/// IRC-style glob match: `*` matches any (possibly empty) sequence; `?` matches
/// exactly one character. Case-insensitive ASCII comparison.
///
/// Works through the pattern from its end, keeping for each suffix of the
/// target whether it matches: time is the product of the two lengths.
#[must_use]
pub fn irc_glob_match(pattern: &str, target: &str) -> (b: bool)
    ensures
        b == glob(pattern@, target@),
{
    let lp = text::to_lower(pattern);
    let lt = text::to_lower(target);
    let p = text::chars_of(lp.as_str());
    let t = text::chars_of(lt.as_str());
    let n = t.len();
    // row[j]: whether the rest of the pattern matches t[j..]
    let mut row: Vec<bool> = Vec::new();
    let mut j: usize = 0;
    while j < n
        invariant
            j <= n,
            row@.len() == j,
            forall|x: int| 0 <= x < j ==> row@[x] == false,
        decreases n - j,
    {
        row.push(false);
        j = j + 1;
    }
    row.push(true);
    let mut i: usize = p.len();
    proof {
        assert forall|x: int| 0 <= x <= n implies row@[x] == #[trigger] glob(
            pattern@.skip(i as int),
            target@.skip(x),
        ) by {
            assert(pattern@.skip(i as int) =~= Seq::empty());
        }
    }
    while i > 0
        invariant
            i <= p.len(),
            p@ == text::lower(pattern@),
            t@ == text::lower(target@),
            n == t.len(),
            row@.len() == n + 1,
            forall|x: int|
                0 <= x <= n ==> row@[x] == #[trigger] glob(
                    pattern@.skip(i as int),
                    target@.skip(x),
                ),
        decreases i,
    {
        let c = p[i - 1];
        let ghost rest = pattern@.skip(i as int);
        let ghost here = pattern@.skip(i - 1);
        let ghost old_row = row@;
        proof {
            assert(here.drop_first() =~= rest);
            assert(here[0] == pattern@[i - 1]);
            assert(c == text::lower_char(pattern@[i - 1]));
            assert((c == '*') == (here[0] == '*'));
            assert((c == '?') == (here[0] == '?'));
        }
        if c == '*' {
            let mut k: usize = n;
            proof {
                assert(target@.skip(n as int).len() == 0);
                assert(old_row[n as int] == glob(rest, target@.skip(n as int)));
            }
            while k > 0
                invariant
                    k <= n,
                    n == t.len(),
                    t@ == text::lower(target@),
                    row@.len() == n + 1,
                    old_row.len() == n + 1,
                    here.len() > 0,
                    here[0] == '*',
                    here.drop_first() == rest,
                    forall|x: int|
                        0 <= x <= n ==> old_row[x] == #[trigger] glob(rest, target@.skip(x)),
                    forall|x: int| 0 <= x < k ==> row@[x] == old_row[x],
                    forall|x: int|
                        k <= x <= n ==> row@[x] == #[trigger] glob(here, target@.skip(x)),
                decreases k,
            {
                let cell = row[k - 1] || row[k];
                proof {
                    let u = target@.skip(k - 1);
                    assert(u.drop_first() =~= target@.skip(k as int));
                    assert(old_row[k - 1] == glob(rest, target@.skip(k - 1)));
                    assert(row@[k as int] == glob(here, target@.skip(k as int)));
                }
                row.set(k - 1, cell);
                k = k - 1;
            }
        } else {
            let mut k: usize = 0;
            while k < n
                invariant
                    k <= n,
                    n == t.len(),
                    t@ == text::lower(target@),
                    row@.len() == n + 1,
                    old_row.len() == n + 1,
                    here.len() > 0,
                    here[0] != '*',
                    c == text::lower_char(here[0]),
                    (c == '?') == (here[0] == '?'),
                    here.drop_first() == rest,
                    forall|x: int|
                        0 <= x <= n ==> old_row[x] == #[trigger] glob(rest, target@.skip(x)),
                    forall|x: int| k <= x <= n ==> row@[x] == old_row[x],
                    forall|x: int|
                        0 <= x < k ==> row@[x] == #[trigger] glob(here, target@.skip(x)),
                decreases n - k,
            {
                let cell = (c == '?' || c == t[k]) && row[k + 1];
                proof {
                    let u = target@.skip(k as int);
                    assert(u.drop_first() =~= target@.skip(k + 1));
                    assert(u[0] == target@[k as int]);
                    assert(t@[k as int] == text::lower_char(u[0]));
                    assert(old_row[k + 1] == glob(rest, target@.skip(k + 1)));
                }
                row.set(k, cell);
                k = k + 1;
            }
            proof {
                let u = target@.skip(n as int);
                assert(u =~= Seq::empty());
                assert(!glob(here, u));
            }
            row.set(n, false);
        }
        i = i - 1;
        proof {
            assert(pattern@.skip(i as int) =~= here);
        }
    }
    proof {
        assert(pattern@.skip(0) =~= pattern@);
        assert(target@.skip(0) =~= target@);
        assert(row@[0] == glob(pattern@.skip(0), target@.skip(0)));
    }
    row[0]
}

// ----- laws ------------------------------------------------------------------

/// A leading `*` takes any part of the target: the pattern matches exactly if
/// the rest of it matches some suffix.
pub proof fn star_takes_any_prefix(p: Seq<char>, t: Seq<char>)
    requires
        p.len() > 0,
        p[0] == '*',
    ensures
        glob(p, t) <==> exists|k: int|
            0 <= k <= t.len() && #[trigger] glob(p.drop_first(), t.skip(k)),
    decreases t.len(),
{
    let q = p.drop_first();
    assert(t.skip(0) =~= t);
    if glob(q, t) {
        assert(glob(q, t.skip(0)));
    }
    if t.len() > 0 {
        let u = t.drop_first();
        star_takes_any_prefix(p, u);
        if glob(p, u) {
            let k = choose|k: int| 0 <= k <= u.len() && #[trigger] glob(q, u.skip(k));
            assert(u.skip(k) =~= t.skip(k + 1));
            assert(glob(q, t.skip(k + 1)));
        }
        if exists|k: int| 0 <= k <= t.len() && #[trigger] glob(q, t.skip(k)) {
            let k = choose|k: int| 0 <= k <= t.len() && #[trigger] glob(q, t.skip(k));
            if k > 0 {
                assert(u.skip(k - 1) =~= t.skip(k));
                assert(glob(q, u.skip(k - 1)));
            }
        }
    } else if exists|k: int| 0 <= k <= t.len() && #[trigger] glob(q, t.skip(k)) {
        let k = choose|k: int| 0 <= k <= t.len() && #[trigger] glob(q, t.skip(k));
        assert(t.skip(k) =~= t);
    }
}

/// `*` matches everything.
pub proof fn star_matches_everything(t: Seq<char>)
    ensures
        glob(seq!['*'], t),
    decreases t.len(),
{
    let p = seq!['*'];
    assert(p.drop_first() =~= Seq::empty());
    if t.len() > 0 {
        star_matches_everything(t.drop_first());
    } else {
        assert(glob(p.drop_first(), t));
    }
}

/// Case does not matter, neither in the pattern nor in the target.
pub proof fn glob_ignores_case(p: Seq<char>, q: Seq<char>, t: Seq<char>, u: Seq<char>)
    requires
        text::lower(p) == text::lower(q),
        text::lower(t) == text::lower(u),
    ensures
        glob(p, t) == glob(q, u),
    decreases p.len(), t.len(),
{
    assert(text::lower(p).len() == p.len() && text::lower(q).len() == q.len());
    assert(text::lower(t).len() == t.len() && text::lower(u).len() == u.len());
    if t.len() > 0 {
        assert(text::lower(t)[0] == text::lower_char(t[0]));
        assert(text::lower(u)[0] == text::lower_char(u[0]));
        assert(text::lower(t.drop_first()) =~= text::lower(t).drop_first());
        assert(text::lower(u.drop_first()) =~= text::lower(u).drop_first());
    }
    if p.len() > 0 {
        assert(text::lower(p)[0] == text::lower_char(p[0]));
        assert(text::lower(q)[0] == text::lower_char(q[0]));
        let p1 = p.drop_first();
        let q1 = q.drop_first();
        assert(text::lower(p1) =~= text::lower(p).drop_first());
        assert(text::lower(q1) =~= text::lower(q).drop_first());
        if p[0] == '*' {
            glob_ignores_case(p1, q1, t, u);
            if t.len() > 0 {
                glob_ignores_case(p, q, t.drop_first(), u.drop_first());
            }
        } else if t.len() > 0 {
            glob_ignores_case(p1, q1, t.drop_first(), u.drop_first());
        }
    }
}

/// A pattern without wildcards matches exactly the texts equal to it up to
/// case.
pub proof fn plain_pattern_is_equality(p: Seq<char>, t: Seq<char>)
    requires
        !p.contains('*'),
        !p.contains('?'),
    ensures
        glob(p, t) == (text::lower(p) == text::lower(t)),
    decreases p.len(),
{
    if p.len() > 0 {
        assert(p.contains(p[0]));
        let p1 = p.drop_first();
        assert forall|x: int| 0 <= x < p1.len() implies p1[x] != '*' && p1[x] != '?' by {
            assert(p1[x] == p[x + 1]);
            assert(p.contains(p[x + 1]));
        }
        assert(!p1.contains('*') && !p1.contains('?'));
        if t.len() > 0 {
            let t1 = t.drop_first();
            plain_pattern_is_equality(p1, t1);
            if text::lower(p) == text::lower(t) {
                assert(text::lower(p)[0] == text::lower(t)[0]);
                assert(text::lower(p1) =~= text::lower(p).drop_first());
                assert(text::lower(t1) =~= text::lower(t).drop_first());
            }
            if glob(p, t) {
                assert(text::lower(p) =~= seq![text::lower_char(p[0])] + text::lower(p1));
                assert(text::lower(t) =~= seq![text::lower_char(t[0])] + text::lower(t1));
            }
        } else {
            assert(text::lower(p).len() != text::lower(t).len());
        }
    } else {
        assert(text::lower(p).len() == 0);
        if t.len() == 0 {
            assert(text::lower(p) =~= text::lower(t));
        } else {
            assert(text::lower(t).len() > 0);
        }
    }
}

} // verus!

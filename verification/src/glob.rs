//! Glob matching over characters: `*` stands for any run, `?` for any one.
use vstd::prelude::*;
use crate::text;
use crate::text::{chars_of, to_lowercase};

verus! {

/// Whether the pattern from position `i` on matches the value from position
/// `j` on.
pub open spec fn glob_from(p: Seq<char>, v: Seq<char>, i: int, j: int) -> bool
    decreases p.len() - i, v.len() - j,
{
    if i < 0 || j < 0 || i > p.len() || j > v.len() {
        false
    } else if i == p.len() {
        j == v.len()
    } else if p[i] == '*' {
        glob_from(p, v, i + 1, j) || (j < v.len() && glob_from(p, v, i, j + 1))
    } else {
        j < v.len() && (p[i] == '?' || p[i] == v[j]) && glob_from(p, v, i + 1, j + 1)
    }
}

/// Whether a pattern matches a whole value: `*` stands for any run of
/// characters, `?` for any one character, every other character for itself.
pub open spec fn glob(p: Seq<char>, v: Seq<char>) -> bool {
    glob_from(p, v, 0, 0)
}

/// The case-insensitive relation that rule patterns use.
pub open spec fn pattern_relation(pattern: Seq<char>, value: Seq<char>) -> bool {
    glob(text::lowered(pattern), text::lowered(value))
}

/// The characters `p[i..i + n]` hold no `*` and match `v[j..j + n]` one by one.
spec fn run_matches(p: Seq<char>, v: Seq<char>, i: int, j: int, n: int) -> bool {
    &&& 0 <= i && i + n <= p.len()
    &&& 0 <= j && j + n <= v.len()
    &&& forall|k: int|
        #![trigger p[i + k]]
        0 <= k < n ==> p[i + k] != '*' && (p[i + k] == '?' || p[i + k] == v[j + k])
}

proof fn lemma_run(p: Seq<char>, v: Seq<char>, i: int, j: int, n: int)
    requires
        n >= 0,
        run_matches(p, v, i, j, n),
    ensures
        glob_from(p, v, i, j) == glob_from(p, v, i + n, j + n),
    decreases n,
{
    if n > 0 {
        assert(p[i + 0] != '*');
        assert(run_matches(p, v, i + 1, j + 1, n - 1)) by {
            assert forall|k: int| #![trigger p[i + 1 + k]] 0 <= k < n - 1 implies p[i + 1 + k] != '*'
                && (p[i + 1 + k] == '?' || p[i + 1 + k] == v[j + 1 + k]) by {
                assert(p[i + (k + 1)] != '*');
            }
        }
        lemma_run(p, v, i + 1, j + 1, n - 1);
    }
}

/// A pattern that begins with `*` and matches from `b` on matches from every
/// earlier position.
proof fn lemma_star_reaches_back(p: Seq<char>, v: Seq<char>, s: int, a: int, b: int)
    requires
        0 <= s < p.len(),
        p[s] == '*',
        0 <= a <= b <= v.len(),
        glob_from(p, v, s, b),
    ensures
        glob_from(p, v, s, a),
    decreases b - a,
{
    if a < b {
        lemma_star_reaches_back(p, v, s, a + 1, b);
    }
}

/// A leading run that fits at `r` and is followed by another `*` may as well
/// be taken there: whatever match there is, there is one with the run at `r`.
proof fn lemma_second_star(p: Seq<char>, v: Seq<char>, s: int, r: int, n: int)
    requires
        0 <= s,
        n >= 0,
        s + 1 + n < p.len(),
        p[s] == '*',
        p[s + 1 + n] == '*',
        run_matches(p, v, s + 1, r, n),
    ensures
        glob_from(p, v, s, r) == glob_from(p, v, s + 1 + n, r + n),
{
    lemma_run(p, v, s + 1, r, n);
    if glob_from(p, v, s, r) {
        lemma_second_star_onward(p, v, s, r, r, n);
    }
}

proof fn lemma_second_star_onward(p: Seq<char>, v: Seq<char>, s: int, r: int, a: int, n: int)
    requires
        0 <= s,
        n >= 0,
        s + 1 + n < p.len(),
        p[s] == '*',
        p[s + 1 + n] == '*',
        run_matches(p, v, s + 1, r, n),
        r <= a <= v.len(),
        glob_from(p, v, s, a),
    ensures
        glob_from(p, v, s + 1 + n, r + n),
    decreases v.len() - a,
{
    if glob_from(p, v, s + 1, a) {
        lemma_run_forced(p, v, s + 1, a, n, s + 1, r);
        lemma_star_reaches_back(p, v, s + 1 + n, r + n, a + n);
    } else {
        lemma_second_star_onward(p, v, s, r, a + 1, n);
    }
}

/// Where a pattern matches from `i`, its first `n` characters, if none is `*`,
/// are used up one by one.
proof fn lemma_run_forced(p: Seq<char>, v: Seq<char>, i: int, a: int, n: int, i0: int, r0: int)
    requires
        i == i0,
        n >= 0,
        run_matches(p, v, i0, r0, n),
        glob_from(p, v, i, a),
    ensures
        a + n <= v.len(),
        glob_from(p, v, i + n, a + n),
    decreases n,
{
    if n > 0 {
        assert(p[i0 + 0] != '*');
        assert(run_matches(p, v, i0 + 1, r0 + 1, n - 1)) by {
            assert forall|k: int|
                #![trigger p[i0 + 1 + k]]
                0 <= k < n - 1 implies p[i0 + 1 + k] != '*' && (p[i0 + 1 + k] == '?' || p[i0 + 1 + k]
                == v[r0 + 1 + k]) by {
                assert(p[i0 + (k + 1)] != '*');
            }
        }
        lemma_run_forced(p, v, i + 1, a + 1, n - 1, i0 + 1, r0 + 1);
    }
}

/// With the value used up, what is left of the pattern must be stars.
proof fn lemma_rest_is_stars(p: Seq<char>, v: Seq<char>, i: int)
    requires
        0 <= i <= p.len(),
    ensures
        glob_from(p, v, i, v.len() as int) <==> forall|k: int|
            i <= k < p.len() ==> #[trigger] p[k] == '*',
    decreases p.len() - i,
{
    if i < p.len() {
        lemma_rest_is_stars(p, v, i + 1);
    }
}

/// A run that reaches the end of the value leaves room for no later start.
proof fn lemma_no_later_start(p: Seq<char>, v: Seq<char>, s: int, r: int, a: int, n: int)
    requires
        0 <= s,
        n >= 0,
        s + 1 + n <= p.len(),
        p[s] == '*',
        run_matches(p, v, s + 1, r, n),
        r + n == v.len(),
        r < a <= v.len(),
    ensures
        !glob_from(p, v, s, a),
    decreases v.len() - a,
{
    if glob_from(p, v, s + 1, a) {
        lemma_run_forced(p, v, s + 1, a, n, s + 1, r);
    }
    if a < v.len() {
        lemma_no_later_start(p, v, s, r, a + 1, n);
    }
}

/// Whether a pattern matches a whole value. `*` stands for any run of
/// characters, `?` for any one character.
pub fn glob_matches(pattern: &Vec<char>, value: &Vec<char>) -> (r: bool)
    ensures
        r == glob(pattern@, value@),
{
    let ghost pat = pattern@;
    let ghost val = value@;
    let mut p: usize = 0;
    let mut v: usize = 0;
    let mut star: Option<usize> = None;
    let mut resume: usize = 0;

    while v < value.len()
        invariant
            pat == pattern@,
            val == value@,
            p <= pattern@.len(),
            v <= value@.len(),
            star is None ==> glob(pat, val) == glob_from(pat, val, p as int, v as int),
            star is Some ==> {
                let s = star->0;
                &&& s < p
                &&& pat[s as int] == '*'
                &&& resume <= v
                &&& p - s - 1 == v - resume
                &&& run_matches(pat, val, s + 1, resume as int, v - resume)
                &&& glob(pat, val) == glob_from(pat, val, s as int, resume as int)
            },
        decreases
            value@.len() - (if star is Some {
                resume as int
            } else {
                0
            }),
            pattern@.len() - (if star is Some {
                star->0 as int
            } else {
                -1
            }),
            value@.len() - v,
    {
        if p < pattern.len() && pattern[p] == '*' {
            proof {
                if star is Some {
                    lemma_second_star(pat, val, star->0 as int, resume as int, v - resume);
                }
            }
            star = Some(p);
            p += 1;
            resume = v;
        } else if p < pattern.len() && (pattern[p] == '?' || pattern[p] == value[v]) {
            proof {
                if star is Some {
                    let s = star->0;
                    let n = v - resume;
                    assert forall|k: int|
                        #![trigger pat[s + 1 + k]]
                        0 <= k < n + 1 implies pat[s + 1 + k] != '*' && (pat[s + 1 + k] == '?'
                        || pat[s + 1 + k] == val[resume + k]) by {
                        if k == n {
                            assert(pat[s + 1 + k] == pat[p as int]);
                        }
                    }
                }
            }
            p += 1;
            v += 1;
        } else if let Some(s) = star {
            proof {
                lemma_run(pat, val, s + 1, resume as int, v - resume);
                assert(!glob_from(pat, val, p as int, v as int));
            }
            p = s + 1;
            resume += 1;
            v = resume;
        } else {
            return false;
        }
    }

    proof {
        if star is Some {
            let s = star->0;
            let n = v - resume;
            lemma_run(pat, val, s + 1, resume as int, n);
            if resume < val.len() {
                lemma_no_later_start(pat, val, s as int, resume as int, resume + 1, n);
            }
            assert(glob(pat, val) == glob_from(pat, val, p as int, v as int));
        }
        lemma_rest_is_stars(pat, val, p as int);
    }
    while p < pattern.len() && pattern[p] == '*'
        invariant
            pat == pattern@,
            p <= pattern@.len(),
            glob(pat, val) <==> forall|k: int| p <= k < pat.len() ==> #[trigger] pat[k] == '*',
        decreases pattern@.len() - p,
    {
        p += 1;
    }
    p == pattern.len()
}

/// Case-insensitive glob matching supporting `*` and `?`.
///
/// Used for app-identity rule patterns such as `"slack*"` or `"*chrome*"`.
pub fn pattern_matches(pattern: &str, value: &str) -> (r: bool)
    ensures
        r == pattern_relation(pattern@, value@),
        text::ascii_only(pattern@) && text::ascii_only(value@) ==> r == glob(
            text::ascii_lower(pattern@),
            text::ascii_lower(value@),
        ),
{
    let pattern = to_lowercase(pattern);
    let value = to_lowercase(value);
    glob_matches(&chars_of(pattern.as_str()), &chars_of(value.as_str()))
}

/// A lone `*` matches every value.
pub proof fn star_matches_everything(v: Seq<char>)
    ensures
        glob(seq!['*'], v),
{
    lemma_star_takes_all(v, 0);
}

proof fn lemma_star_takes_all(v: Seq<char>, j: int)
    requires
        0 <= j <= v.len(),
    ensures
        glob_from(seq!['*'], v, 0, j),
    decreases v.len() - j,
{
    reveal_with_fuel(glob_from, 2);
    if j < v.len() {
        lemma_star_takes_all(v, j + 1);
    }
}

/// A pattern without `*` and `?` matches itself and nothing else.
pub proof fn plain_pattern_matches_itself_alone(p: Seq<char>, v: Seq<char>)
    requires
        forall|i: int| 0 <= i < p.len() ==> #[trigger] p[i] != '*' && p[i] != '?',
    ensures
        glob(p, v) <==> p == v,
{
    lemma_plain(p, v, 0);
    assert(p.skip(0) =~= p);
    assert(v.skip(0) =~= v);
}

proof fn lemma_plain(p: Seq<char>, v: Seq<char>, i: int)
    requires
        0 <= i <= p.len(),
        i <= v.len(),
        forall|k: int| 0 <= k < p.len() ==> #[trigger] p[k] != '*' && p[k] != '?',
    ensures
        glob_from(p, v, i, i) <==> p.skip(i) == v.skip(i),
    decreases p.len() - i,
{
    if i < p.len() && i < v.len() {
        lemma_plain(p, v, i + 1);
        if p.skip(i) == v.skip(i) {
            assert(p.skip(i)[0] == v.skip(i)[0]);
            assert(p.skip(i + 1) =~= p.skip(i).drop_first());
            assert(v.skip(i + 1) =~= v.skip(i).drop_first());
        }
        if p[i] == v[i] && p.skip(i + 1) == v.skip(i + 1) {
            assert(p.skip(i) =~= seq![p[i]] + p.skip(i + 1));
            assert(v.skip(i) =~= seq![v[i]] + v.skip(i + 1));
        }
    } else if i == p.len() && i == v.len() {
        assert(p.skip(i) =~= v.skip(i));
    } else if i == p.len() {
        assert(p.skip(i).len() != v.skip(i).len());
    } else {
        assert(p.skip(i).len() != v.skip(i).len());
    }
}

/// A pattern matches the same values when some of its ASCII letters change
/// case, and a value is matched by the same patterns when some of its do.
pub proof fn ascii_case_does_not_matter(p: Seq<char>, q: Seq<char>, v: Seq<char>, w: Seq<char>)
    requires
        p.len() == q.len(),
        v.len() == w.len(),
        forall|i: int| 0 <= i < p.len() ==> text::ascii_lower_char(#[trigger] p[i]) == text::ascii_lower_char(q[i]),
        forall|i: int| 0 <= i < v.len() ==> text::ascii_lower_char(#[trigger] v[i]) == text::ascii_lower_char(w[i]),
    ensures
        glob(text::ascii_lower(p), text::ascii_lower(v)) == glob(text::ascii_lower(q), text::ascii_lower(w)),
{
    assert(text::ascii_lower(p) =~= text::ascii_lower(q));
    assert(text::ascii_lower(v) =~= text::ascii_lower(w));
}

proof fn lemma_glob_tail(p: Seq<char>, v: Seq<char>, i: int, j: int)
    requires
        0 <= i <= p.len(),
        0 <= j <= v.len(),
    ensures
        glob_from(p, v, i, j) == glob(p.skip(i), v.skip(j)),
{
    lemma_glob_shift(p, v, i, j, 0, 0);
}

proof fn lemma_glob_shift(p: Seq<char>, v: Seq<char>, i: int, j: int, a: int, b: int)
    requires
        0 <= i <= p.len(),
        0 <= j <= v.len(),
        0 <= a <= p.len() - i,
        0 <= b <= v.len() - j,
    ensures
        glob_from(p, v, i + a, j + b) == glob_from(p.skip(i), v.skip(j), a, b),
    decreases p.len() - i - a, v.len() - j - b,
{
    let q = p.skip(i);
    let w = v.skip(j);
    if i + a < p.len() {
        assert(q[a] == p[i + a]);
        if j + b < v.len() {
            assert(w[b] == v[j + b]);
        }
        if p[i + a] == '*' {
            lemma_glob_shift(p, v, i, j, a + 1, b);
            if j + b < v.len() {
                lemma_glob_shift(p, v, i, j, a, b + 1);
            }
        } else if j + b < v.len() {
            lemma_glob_shift(p, v, i, j, a + 1, b + 1);
        }
    }
}

/// An empty pattern matches an empty value alone. A `?` stands for any one
/// character, and a character other than `*` and `?` for itself; the rest of the
/// pattern then has to match the rest of the value.
pub proof fn patterns_go_character_by_character(c: char, p: Seq<char>, v: Seq<char>)
    requires
        c != '*',
    ensures
        glob(Seq::empty(), v) <==> v.len() == 0,
        glob(seq![c] + p, v) <==> v.len() > 0 && (c == '?' || c == v[0]) && glob(p, v.skip(1)),
{
    let q = seq![c] + p;
    assert(q[0] == c);
    if v.len() > 0 {
        lemma_glob_tail(q, v, 1, 1);
        assert(q.skip(1) =~= p);
    }
}

/// A `*` stands for any run of characters, an empty one among them: the rest of
/// the pattern has to match what is left behind some place of the value.
pub proof fn a_star_stands_for_any_run(p: Seq<char>, v: Seq<char>)
    ensures
        glob(seq!['*'] + p, v) <==> exists|k: int|
            0 <= k <= v.len() && #[trigger] glob(p, v.skip(k)),
{
    let q = seq!['*'] + p;
    lemma_star_from(q, p, v, 0);
}

proof fn lemma_star_from(q: Seq<char>, p: Seq<char>, v: Seq<char>, j: int)
    requires
        q == seq!['*'] + p,
        0 <= j <= v.len(),
    ensures
        glob_from(q, v, 0, j) <==> exists|k: int|
            j <= k <= v.len() && #[trigger] glob(p, v.skip(k)),
    decreases v.len() - j,
{
    assert(q[0] == '*');
    lemma_glob_tail(q, v, 1, j);
    assert(q.skip(1) =~= p);
    if j < v.len() {
        lemma_star_from(q, p, v, j + 1);
    }
    if glob_from(q, v, 0, j) {
        if glob(p, v.skip(j)) {
        } else {
            let k = choose|k: int| j + 1 <= k <= v.len() && #[trigger] glob(p, v.skip(k));
            assert(glob(p, v.skip(k)));
        }
    }
    if exists|k: int| j <= k <= v.len() && #[trigger] glob(p, v.skip(k)) {
        let k = choose|k: int| j <= k <= v.len() && #[trigger] glob(p, v.skip(k));
        if k > j {
            assert(j + 1 <= k <= v.len() && glob(p, v.skip(k)));
        }
    }
}

/// Rule patterns are compared in lower case on both sides, so that a pattern of
/// ASCII characters without `*` and `?` fits exactly the values that differ from
/// it by no more than the case of letters.
pub proof fn plain_rule_patterns_ignore_case(p: Seq<char>, v: Seq<char>)
    requires
        text::lowered(p) == text::ascii_lower(p),
        text::lowered(v) == text::ascii_lower(v),
        forall|i: int| 0 <= i < p.len() ==> #[trigger] p[i] != '*' && p[i] != '?',
    ensures
        pattern_relation(p, v) <==> text::ascii_lower(p) == text::ascii_lower(v),
{
    let low = text::ascii_lower(p);
    assert forall|i: int| 0 <= i < low.len() implies #[trigger] low[i] != '*' && low[i]
        != '?' by {
        assert(low[i] == text::ascii_lower_char(p[i]));
        assert(p[i] != '*' && p[i] != '?');
        if 'A' <= p[i] && p[i] <= 'Z' {
            assert(((p[i] as u8) + 32) as char as int == p[i] as int + 32);
        }
    }
    plain_pattern_matches_itself_alone(low, text::ascii_lower(v));
}

} // verus!

//! Character-level text helpers shared by the composer, the manifest parser
//! and the reply parser: conversion between `&str` and `Vec<char>`, trimming,
//! searching and splitting on a literal separator, and joining lines.
use vstd::prelude::*;

verus! {

/// A Unicode white-space character, the set that `str::trim` removes.
pub open spec fn spec_is_space(c: char) -> bool {
    let u = c as u32;
    u == 0x09 || u == 0x0A || u == 0x0B || u == 0x0C || u == 0x0D || u == 0x20 || u == 0x85
        || u == 0xA0 || u == 0x1680 || (0x2000 <= u && u <= 0x200A) || u == 0x2028 || u == 0x2029
        || u == 0x202F || u == 0x205F || u == 0x3000
}

pub fn is_space(c: char) -> (r: bool)
    ensures
        r == spec_is_space(c),
{
    let u = c as u32;
    u == 0x09 || u == 0x0A || u == 0x0B || u == 0x0C || u == 0x0D || u == 0x20 || u == 0x85
        || u == 0xA0 || u == 0x1680 || (0x2000 <= u && u <= 0x200A) || u == 0x2028 || u == 0x2029
        || u == 0x202F || u == 0x205F || u == 0x3000
}

/// All characters of a piece of text are white space.
pub open spec fn all_space(s: Seq<char>) -> bool {
    forall|i: int| 0 <= i < s.len() ==> spec_is_space(s[i])
}

/// The characters of `s`, in order.
pub fn chars_of(s: &str) -> (v: Vec<char>)
    ensures
        v@ == s@,
{
    let n = s.unicode_len();
    let mut v: Vec<char> = Vec::new();
    let mut i: usize = 0;
    while i < n
        invariant
            i <= n,
            n == s@.len(),
            v@ == s@.take(i as int),
        decreases n - i,
    {
        let c = s.get_char(i);
        v.push(c);
        proof {
            assert(v@ =~= s@.take(i + 1));
        }
        i = i + 1;
    }
    proof {
        assert(v@ =~= s@);
    }
    v
}

/// Relies on `String`'s `FromIterator<char>` implementation: collecting
/// characters yields the string with exactly those characters in order.
#[verifier::external_body]
pub fn string_of(v: &Vec<char>) -> (s: String)
    ensures
        s@ == v@,
{
    v.iter().collect()
}

/// `s` with its leading white space removed.
pub open spec fn trim_front(s: Seq<char>) -> Seq<char>
    decreases s.len(),
{
    if s.len() > 0 && spec_is_space(s[0]) {
        trim_front(s.drop_first())
    } else {
        s
    }
}

/// `s` with its trailing white space removed.
pub open spec fn trim_back(s: Seq<char>) -> Seq<char>
    decreases s.len(),
{
    if s.len() > 0 && spec_is_space(s[s.len() - 1]) {
        trim_back(s.drop_last())
    } else {
        s
    }
}

/// `s` with white space removed from both ends, as `str::trim` leaves it.
pub open spec fn spec_trim(s: Seq<char>) -> Seq<char> {
    trim_back(trim_front(s))
}

proof fn lemma_trim_front_skip(s: Seq<char>, i: int)
    requires
        0 <= i <= s.len(),
        forall|j: int| 0 <= j < i ==> spec_is_space(s[j]),
    ensures
        trim_front(s) == trim_front(s.skip(i)),
    decreases i,
{
    if i > 0 {
        assert(s.len() > 0 && spec_is_space(s[0]));
        assert(s.drop_first() =~= s.skip(1));
        lemma_trim_front_skip(s.skip(1), i - 1);
        assert(s.skip(1).skip(i - 1) =~= s.skip(i));
    } else {
        assert(s.skip(0) =~= s);
    }
}

proof fn lemma_trim_front_fixed(s: Seq<char>)
    requires
        s.len() == 0 || !spec_is_space(s[0]),
    ensures
        trim_front(s) == s,
{
}

proof fn lemma_trim_back_take(s: Seq<char>, i: int)
    requires
        0 <= i <= s.len(),
        forall|j: int| i <= j < s.len() ==> spec_is_space(s[j]),
    ensures
        trim_back(s) == trim_back(s.take(i)),
    decreases s.len() - i,
{
    if i < s.len() {
        assert(spec_is_space(s[s.len() - 1]));
        assert(s.drop_last() =~= s.take(s.len() - 1));
        lemma_trim_back_take(s.take(s.len() - 1), i);
        assert(s.take(s.len() - 1).take(i) =~= s.take(i));
    } else {
        assert(s.take(s.len() as int) =~= s);
    }
}

proof fn lemma_trim_back_fixed(s: Seq<char>)
    requires
        s.len() == 0 || !spec_is_space(s[s.len() - 1]),
    ensures
        trim_back(s) == s,
{
}

/// White space stripped from both ends of `v`.
pub fn trim(v: &Vec<char>) -> (r: Vec<char>)
    ensures
        r@ == spec_trim(v@),
{
    let n = v.len();
    let mut start: usize = 0;
    while start < n && is_space(v[start])
        invariant
            start <= n,
            n == v@.len(),
            forall|j: int| 0 <= j < start ==> spec_is_space(v@[j]),
        decreases n - start,
    {
        start = start + 1;
    }
    let mut end: usize = n;
    while end > start && is_space(v[end - 1])
        invariant
            start <= end <= n,
            n == v@.len(),
            forall|j: int| 0 <= j < start ==> spec_is_space(v@[j]),
            forall|j: int| end <= j < n ==> spec_is_space(v@[j]),
        decreases end,
    {
        end = end - 1;
    }
    let mut r: Vec<char> = Vec::new();
    let mut i: usize = start;
    while i < end
        invariant
            start <= i <= end <= n,
            n == v@.len(),
            r@ == v@.subrange(start as int, i as int),
        decreases end - i,
    {
        r.push(v[i]);
        proof {
            assert(r@ =~= v@.subrange(start as int, i + 1));
        }
        i = i + 1;
    }
    proof {
        let s = v@;
        lemma_trim_front_skip(s, start as int);
        let f = s.skip(start as int);
        lemma_trim_front_fixed(f);
        assert(trim_front(s) == f);
        lemma_trim_back_take(f, end - start);
        let g = f.take(end - start);
        assert(g.len() == end - start);
        assert(end > start ==> !spec_is_space(g[g.len() - 1]));
        lemma_trim_back_fixed(g);
        assert(spec_trim(s) == g);
        assert(r@ =~= g);
    }
    r
}

proof fn lemma_trim_front_all_space(s: Seq<char>)
    ensures
        all_space(s) ==> trim_front(s).len() == 0,
        !all_space(s) ==> trim_front(s).len() > 0 && !spec_is_space(trim_front(s)[0]),
    decreases s.len(),
{
    if s.len() > 0 && spec_is_space(s[0]) {
        lemma_trim_front_all_space(s.drop_first());
        if all_space(s.drop_first()) {
            assert forall|j: int| 0 <= j < s.len() implies spec_is_space(s[j]) by {
                if j >= 1 {
                    assert(spec_is_space(s.drop_first()[j - 1]));
                }
            }
        }
        if !all_space(s) {
            let j = choose|j: int| 0 <= j < s.len() && !spec_is_space(s[j]);
            assert(!spec_is_space(s.drop_first()[j - 1]));
        }
    }
}

proof fn lemma_trim_back_keeps_head(s: Seq<char>)
    requires
        s.len() > 0,
        !spec_is_space(s[0]),
    ensures
        trim_back(s).len() > 0,
    decreases s.len(),
{
    if spec_is_space(s[s.len() - 1]) {
        assert(s.len() > 1);
        lemma_trim_back_keeps_head(s.drop_last());
    }
}

/// Trimming leaves nothing exactly when the text is all white space.
pub proof fn lemma_trim_all_space(s: Seq<char>)
    ensures
        spec_trim(s).len() == 0 <==> all_space(s),
{
    lemma_trim_front_all_space(s);
    if all_space(s) {
        assert(trim_front(s).len() == 0);
        assert(trim_back(trim_front(s)).len() == 0);
    } else {
        lemma_trim_back_keeps_head(trim_front(s));
    }
}

/// The position of the first occurrence of `sep` in `s`, if any.
pub open spec fn spec_find(s: Seq<char>, sep: Seq<char>) -> Option<int>
    decreases s.len(),
{
    if sep.len() > s.len() {
        None
    } else if s.take(sep.len() as int) == sep {
        Some(0int)
    } else if s.len() == 0 {
        None
    } else {
        match spec_find(s.drop_first(), sep) {
            Some(i) => Some(i + 1),
            None => None,
        }
    }
}

/// `sep` occurs in `s` starting at position `i`.
pub open spec fn occurs_at(s: Seq<char>, sep: Seq<char>, i: int) -> bool {
    0 <= i && i + sep.len() <= s.len() && s.subrange(i, i + sep.len()) == sep
}

/// `sep` occurs somewhere in `s`.
pub open spec fn has_sub(s: Seq<char>, sep: Seq<char>) -> bool {
    exists|i: int| occurs_at(s, sep, i)
}

pub proof fn lemma_find_spec(s: Seq<char>, sep: Seq<char>)
    ensures
        match spec_find(s, sep) {
            Some(i) => occurs_at(s, sep, i) && (forall|j: int| 0 <= j < i ==> !occurs_at(s, sep, j)),
            None => !has_sub(s, sep),
        },
    decreases s.len(),
{
    if sep.len() > s.len() {
        assert(forall|i: int| !occurs_at(s, sep, i));
    } else if s.take(sep.len() as int) == sep {
        assert(s.subrange(0, sep.len() as int) =~= s.take(sep.len() as int));
    } else if s.len() == 0 {
        assert(s.take(sep.len() as int) =~= sep);
    } else {
        let t = s.drop_first();
        lemma_find_spec(t, sep);
        assert(s.subrange(0, sep.len() as int) =~= s.take(sep.len() as int));
        assert(!occurs_at(s, sep, 0));
        match spec_find(t, sep) {
            Some(i) => {
                assert(occurs_at(t, sep, i));
                assert(s.subrange(i + 1, i + 1 + sep.len()) =~= t.subrange(i, i + sep.len()));
                assert(occurs_at(s, sep, i + 1));
                assert forall|j: int| 0 <= j < i + 1 implies !occurs_at(s, sep, j) by {
                    if j >= 1 && occurs_at(s, sep, j) {
                        assert(t.subrange(j - 1, j - 1 + sep.len()) =~= s.subrange(
                            j,
                            j + sep.len(),
                        ));
                        assert(occurs_at(t, sep, j - 1));
                    }
                }
            },
            None => {
                assert forall|i: int| !occurs_at(s, sep, i) by {
                    if 1 <= i && occurs_at(s, sep, i) {
                        assert(t.subrange(i - 1, i - 1 + sep.len()) =~= s.subrange(
                            i,
                            i + sep.len(),
                        ));
                        assert(occurs_at(t, sep, i - 1));
                    }
                }
            },
        }
    }
}

/// Whether `sep` occurs in `s` starting exactly at `at`.
fn matches_at(s: &Vec<char>, sep: &Vec<char>, at: usize) -> (r: bool)
    requires
        at + sep@.len() <= s@.len(),
    ensures
        r == (s@.subrange(at as int, at + sep@.len()) == sep@),
{
    let m = sep.len();
    let n = s.len();
    let mut k: usize = 0;
    while k < m
        invariant
            k <= m,
            m == sep@.len(),
            n == s@.len(),
            at + m <= n,
            forall|j: int| 0 <= j < k ==> s@[at + j] == sep@[j],
        decreases m - k,
    {
        if s[at + k] != sep[k] {
            proof {
                assert(s@.subrange(at as int, at + sep@.len())[k as int] != sep@[k as int]);
            }
            return false;
        }
        k = k + 1;
    }
    proof {
        assert(s@.subrange(at as int, at + sep@.len()) =~= sep@);
    }
    true
}

/// The position of the first occurrence of `sep` in `s`, if any.
pub fn find(s: &Vec<char>, sep: &Vec<char>) -> (r: Option<usize>)
    requires
        sep@.len() >= 1,
    ensures
        match r {
            Some(i) => Some(i as int) == spec_find(s@, sep@),
            None => spec_find(s@, sep@) is None,
        },
{
    let n = s.len();
    let m = sep.len();
    if m > n {
        return None;
    }
    let lim = n - m;
    let mut i: usize = 0;
    while i <= lim
        invariant
            i <= lim + 1,
            lim == n - m,
            m == sep@.len(),
            n == s@.len(),
            m >= 1,
            forall|j: int| 0 <= j < i ==> !occurs_at(s@, sep@, j),
        decreases lim + 1 - i,
    {
        if matches_at(s, sep, i) {
            proof {
                lemma_find_spec(s@, sep@);
                assert(occurs_at(s@, sep@, i as int));
                let f = spec_find(s@, sep@);
                assert(f is Some);
                let fi = f->0;
                assert(!(fi < i) && !(fi > i));
            }
            return Some(i);
        }
        i = i + 1;
    }
    proof {
        lemma_find_spec(s@, sep@);
        assert(forall|j: int| occurs_at(s@, sep@, j) ==> j < i);
    }
    None
}

/// The pieces of `s` between occurrences of `sep`, in order: the split that
/// `str::split` with a literal pattern produces.
pub open spec fn spec_split(s: Seq<char>, sep: Seq<char>) -> Seq<Seq<char>>
    decreases s.len(),
{
    if sep.len() == 0 {
        seq![s]
    } else {
        match spec_find(s, sep) {
            Some(i) => {
                if i + sep.len() <= s.len() && i >= 0 {
                    seq![s.take(i)] + spec_split(s.skip(i + sep.len()), sep)
                } else {
                    seq![s]
                }
            },
            None => seq![s],
        }
    }
}

proof fn lemma_find_bounds(s: Seq<char>, sep: Seq<char>)
    requires
        spec_find(s, sep) is Some,
    ensures
        0 <= spec_find(s, sep)->0,
        spec_find(s, sep)->0 + sep.len() <= s.len(),
{
    lemma_find_spec(s, sep);
}

/// Splitting `v` on the literal separator `sep`, keeping every piece.
pub fn split(v: &Vec<char>, sep: &Vec<char>) -> (r: Vec<Vec<char>>)
    requires
        sep@.len() >= 1,
    ensures
        r.deep_view() == spec_split(v@, sep@),
{
    let mut r: Vec<Vec<char>> = Vec::new();
    let mut rest: Vec<char> = Vec::new();
    let mut i: usize = 0;
    let n = v.len();
    while i < n
        invariant
            i <= n,
            n == v@.len(),
            rest@ == v@.take(i as int),
        decreases n - i,
    {
        rest.push(v[i]);
        proof {
            assert(rest@ =~= v@.take(i + 1));
        }
        i = i + 1;
    }
    proof {
        assert(rest@ =~= v@);
        assert(r.deep_view() + spec_split(rest@, sep@) =~~= spec_split(v@, sep@));
    }
    loop
        invariant
            sep@.len() >= 1,
            r.deep_view() + spec_split(rest@, sep@) =~~= spec_split(v@, sep@),
        decreases rest@.len(),
    {
        let found = find(&rest, sep);
        match found {
            None => {
                let ghost old_r = r.deep_view();
                let ghost last = rest@;
                r.push(rest);
                proof {
                    assert(r.deep_view() =~~= old_r.push(last));
                    assert(spec_split(last, sep@) == seq![last]);
                    assert(r.deep_view() =~~= spec_split(v@, sep@));
                }
                return r;
            },
            Some(p) => {
                proof {
                    lemma_find_bounds(rest@, sep@);
                }
                let rn = rest.len();
                let mut piece: Vec<char> = Vec::new();
                let mut k: usize = 0;
                while k < p
                    invariant
                        k <= p,
                        p + sep@.len() <= rn,
                        rn == rest@.len(),
                        piece@ == rest@.take(k as int),
                    decreases p - k,
                {
                    piece.push(rest[k]);
                    proof {
                        assert(piece@ =~= rest@.take(k + 1));
                    }
                    k = k + 1;
                }
                let mut tail: Vec<char> = Vec::new();
                let mut t: usize = p + sep.len();
                let ghost start = t as int;
                proof {
                    assert(tail@ =~= rest@.subrange(start, start));
                }
                while t < rn
                    invariant
                        0 <= start <= t <= rn,
                        rn == rest@.len(),
                        tail@ == rest@.subrange(start, t as int),
                    decreases rn - t,
                {
                    tail.push(rest[t]);
                    proof {
                        assert(tail@ =~= rest@.subrange(start, t + 1));
                    }
                    t = t + 1;
                }
                let ghost old_r = r.deep_view();
                let ghost old_rest = rest@;
                r.push(piece);
                rest = tail;
                proof {
                    assert(rest@ =~= old_rest.skip(start));
                    assert(r.deep_view() =~~= old_r.push(old_rest.take(p as int)));
                    assert(spec_split(old_rest, sep@) == seq![old_rest.take(p as int)]
                        + spec_split(old_rest.skip(p + sep@.len()), sep@));
                    assert(r.deep_view() + spec_split(rest@, sep@) =~~= spec_split(v@, sep@));
                }
            },
        }
    }
}

/// The decimal digit character for a value below ten.
pub open spec fn dec_digit(n: int) -> char {
    if n == 0 {
        '0'
    } else if n == 1 {
        '1'
    } else if n == 2 {
        '2'
    } else if n == 3 {
        '3'
    } else if n == 4 {
        '4'
    } else if n == 5 {
        '5'
    } else if n == 6 {
        '6'
    } else if n == 7 {
        '7'
    } else if n == 8 {
        '8'
    } else {
        '9'
    }
}

/// The decimal digits of `n`, most significant first, no leading zeros.
pub open spec fn dec_digits(n: int) -> Seq<char>
    decreases n,
{
    if n < 10 {
        seq![dec_digit(n)]
    } else {
        dec_digits(n / 10) + seq![dec_digit(n % 10)]
    }
}

pub fn dec_digit_exec(n: u64) -> (r: char)
    requires
        n < 10,
    ensures
        r == dec_digit(n as int),
{
    if n == 0 {
        '0'
    } else if n == 1 {
        '1'
    } else if n == 2 {
        '2'
    } else if n == 3 {
        '3'
    } else if n == 4 {
        '4'
    } else if n == 5 {
        '5'
    } else if n == 6 {
        '6'
    } else if n == 7 {
        '7'
    } else if n == 8 {
        '8'
    } else {
        '9'
    }
}

/// The number written in decimal.
pub fn u64_to_string(n: u64) -> (r: String)
    ensures
        r@ == dec_digits(n as int),
{
    let mut out: Vec<char> = Vec::new();
    let mut m: u64 = n;
    proof {
        assert(dec_digits(n as int) =~= dec_digits(m as int) + out@);
    }
    while m >= 10
        invariant
            dec_digits(n as int) == dec_digits(m as int) + out@,
        decreases m,
    {
        let d = dec_digit_exec(m % 10);
        let ghost before = out@;
        out.insert(0, d);
        proof {
            assert(out@ =~= seq![dec_digit(m as int % 10)] + before);
            assert(dec_digits(m as int) == dec_digits(m as int / 10) + seq![
                dec_digit(m as int % 10),
            ]);
            assert(dec_digits(m as int / 10) + out@ =~= dec_digits(m as int) + before);
            assert(dec_digits((m / 10) as int) + out@ =~= dec_digits(n as int));
        }
        m = m / 10;
    }
    let d = dec_digit_exec(m);
    let ghost before = out@;
    out.insert(0, d);
    proof {
        assert(out@ =~= seq![dec_digit(m as int)] + before);
        assert(dec_digits(m as int) =~= seq![dec_digit(m as int)]);
        assert(out@ =~= dec_digits(m as int) + before);
        assert(out@ =~= dec_digits(n as int));
    }
    string_of(&out)
}

/// The lines joined with a single separator between neighbours.
pub open spec fn spec_join(parts: Seq<Seq<char>>, sep: Seq<char>) -> Seq<char>
    decreases parts.len(),
{
    if parts.len() == 0 {
        Seq::empty()
    } else if parts.len() == 1 {
        parts[0]
    } else {
        parts[0] + sep + spec_join(parts.drop_first(), sep)
    }
}

/// Joins the given lines with `sep` between neighbours.
pub fn join(parts: &Vec<String>, sep: &str) -> (r: String)
    ensures
        r@ == spec_join(parts.deep_view(), sep@),
{
    if parts.len() == 0 {
        let r = String::new();
        proof {
            assert(r@ =~= spec_join(parts.deep_view(), sep@));
        }
        return r;
    }
    let mut r = parts[0].clone();
    let mut i: usize = 1;
    let n = parts.len();
    while i < n
        invariant
            1 <= i <= n,
            n == parts@.len(),
            spec_join(parts.deep_view().take(i as int), sep@) == r@,
            forall|k: int|
                0 <= k < parts@.len() ==> parts.deep_view()[k] == #[trigger] parts@[k]@,
        decreases n - i,
    {
        r.append(sep);
        r.append(parts[i].as_str());
        proof {
            lemma_join_push(parts.deep_view().take(i as int), parts.deep_view()[i as int], sep@);
            assert(parts.deep_view().take(i as int).push(parts.deep_view()[i as int])
                =~= parts.deep_view().take(i + 1));
        }
        i = i + 1;
    }
    proof {
        assert(parts.deep_view().take(n as int) =~= parts.deep_view());
    }
    r
}

proof fn lemma_join_push(parts: Seq<Seq<char>>, last: Seq<char>, sep: Seq<char>)
    requires
        parts.len() >= 1,
    ensures
        spec_join(parts.push(last), sep) == spec_join(parts, sep) + sep + last,
    decreases parts.len(),
{
    if parts.len() == 1 {
        let p = parts.push(last);
        assert(p.len() == 2);
        assert(p.drop_first() =~= seq![last]);
        assert(spec_join(p, sep) == p[0] + sep + spec_join(p.drop_first(), sep));
        assert(spec_join(seq![last], sep) == last);
    } else {
        lemma_join_push(parts.drop_first(), last, sep);
        assert(parts.push(last).drop_first() =~= parts.drop_first().push(last));
        assert(spec_join(parts.push(last), sep) == parts[0] + sep + spec_join(
            parts.drop_first().push(last),
            sep,
        ));
        assert((parts[0] + sep + (spec_join(parts.drop_first(), sep) + sep + last)) =~= (parts[0]
            + sep + spec_join(parts.drop_first(), sep) + sep + last));
    }
}

} // verus!

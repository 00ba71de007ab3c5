//! The argument text of a `cubic-bezier(x1,y1,x2,y2)` easing name: the name
//! without its prefix and closing parentheses, split at commas, each part
//! trimmed of white space.
use vstd::prelude::*;

verus! {

/// Characters with the Unicode `White_Space` property.
pub open spec fn white_space(c: char) -> bool {
    let u = c as u32;
    (0x09 <= u <= 0x0d) || u == 0x20 || u == 0x85 || u == 0xa0 || u == 0x1680 || (0x2000 <= u
        <= 0x200a) || u == 0x2028 || u == 0x2029 || u == 0x202f || u == 0x205f || u == 0x3000
}

/// `s` with every occurrence of `pat` removed, scanning left to right.
pub open spec fn without(s: Seq<char>, pat: Seq<char>) -> Seq<char>
    decreases s.len(),
{
    if s.len() == 0 {
        s
    } else if 0 < pat.len() <= s.len() && s.subrange(0, pat.len() as int) == pat {
        without(s.skip(pat.len() as int), pat)
    } else {
        seq![s[0]] + without(s.skip(1), pat)
    }
}

/// The pieces of `s` between occurrences of `sep` (one piece when there is
/// none, an empty piece at each end that `sep` touches).
pub open spec fn split_at_char(s: Seq<char>, sep: char) -> Seq<Seq<char>>
    decreases s.len(),
{
    if s.len() == 0 {
        seq![Seq::<char>::empty()]
    } else {
        let p = split_at_char(s.drop_last(), sep);
        if s.last() == sep {
            p.push(Seq::<char>::empty())
        } else {
            p.update(p.len() - 1, p.last().push(s.last()))
        }
    }
}

/// `s` without leading white space.
pub open spec fn trim_start(s: Seq<char>) -> Seq<char>
    decreases s.len(),
{
    if s.len() > 0 && white_space(s[0]) {
        trim_start(s.skip(1))
    } else {
        s
    }
}

/// `s` without trailing white space.
pub open spec fn trim_end(s: Seq<char>) -> Seq<char>
    decreases s.len(),
{
    if s.len() > 0 && white_space(s.last()) {
        trim_end(s.drop_last())
    } else {
        s
    }
}

/// The argument texts of a cubic-bezier easing name.
pub open spec fn bezier_arg_texts(name: Seq<char>) -> Seq<Seq<char>> {
    split_at_char(without(without(name, "cubic-bezier("@), ")"@), ',').map_values(
        |p: Seq<char>| trim_end(trim_start(p)),
    )
}

fn is_white_space(c: char) -> (r: bool)
    ensures
        r == white_space(c),
{
    let u = c as u32;
    (0x09 <= u && u <= 0x0d) || u == 0x20 || u == 0x85 || u == 0xa0 || u == 0x1680 || (0x2000
        <= u && u <= 0x200a) || u == 0x2028 || u == 0x2029 || u == 0x202f || u == 0x205f || u
        == 0x3000
}

fn chars_of(s: &str) -> (r: Vec<char>)
    ensures
        r@ == s@,
{
    let n = s.unicode_len();
    let mut r: Vec<char> = Vec::new();
    let mut i: usize = 0;
    while i < n
        invariant
            n == s@.len(),
            i <= n,
            r@ == s@.take(i as int),
        decreases n - i,
    {
        assert(s@.take(i as int + 1) =~= s@.take(i as int).push(s@[i as int]));
        r.push(s.get_char(i));
        i = i + 1;
    }
    assert(s@.take(n as int) =~= s@);
    r
}

/// Whether `pat` occurs in `cs` at `i`.
fn occurs_at(cs: &Vec<char>, pat: &Vec<char>, i: usize) -> (r: bool)
    requires
        i <= cs@.len(),
    ensures
        r == (0 < pat@.len() <= cs@.skip(i as int).len() && cs@.skip(i as int).subrange(
            0,
            pat@.len() as int,
        ) == pat@),
{
    let m = pat.len();
    let total = cs.len();
    if m == 0 || m > total - i {
        return false;
    }
    let mut k: usize = 0;
    while k < m
        invariant
            m == pat@.len(),
            total == cs@.len(),
            i <= total,
            0 < m <= cs@.len() - i,
            k <= m,
            forall|j: int| 0 <= j < k ==> cs@[i + j] == pat@[j],
        decreases m - k,
    {
        if cs[i + k] != pat[k] {
            assert(cs@.skip(i as int).subrange(0, m as int)[k as int] != pat@[k as int]);
            return false;
        }
        k = k + 1;
    }
    assert(cs@.skip(i as int).subrange(0, m as int) =~= pat@);
    true
}

fn remove_all(cs: &Vec<char>, pat: &Vec<char>) -> (r: Vec<char>)
    ensures
        r@ == without(cs@, pat@),
{
    let n = cs.len();
    let mut r: Vec<char> = Vec::new();
    let mut i: usize = 0;
    assert(cs@.skip(0) =~= cs@);
    assert(r@ + without(cs@, pat@) =~= without(cs@, pat@));
    while i < n
        invariant
            n == cs@.len(),
            i <= n,
            without(cs@, pat@) == r@ + without(cs@.skip(i as int), pat@),
        decreases n - i,
    {
        let ghost rest = cs@.skip(i as int);
        if occurs_at(cs, pat, i) {
            assert(rest.skip(pat@.len() as int) =~= cs@.skip(i + pat@.len()));
            i = i + pat.len();
        } else {
            assert(rest.skip(1) =~= cs@.skip(i + 1));
            assert(rest[0] == cs@[i as int]);
            r.push(cs[i]);
            assert(r@ + without(cs@.skip(i + 1), pat@) =~= r@.drop_last() + (seq![cs@[i as int]]
                + without(cs@.skip(i + 1), pat@)));
            i = i + 1;
        }
    }
    assert(cs@.skip(n as int) =~= Seq::<char>::empty());
    assert(r@ + Seq::<char>::empty() =~= r@);
    r
}

fn trimmed(p: &Vec<char>) -> (r: Vec<char>)
    ensures
        r@ == trim_end(trim_start(p@)),
{
    let n = p.len();
    let mut a: usize = 0;
    assert(p@.skip(0) =~= p@);
    while a < n && is_white_space(p[a])
        invariant
            n == p@.len(),
            a <= n,
            trim_start(p@) == trim_start(p@.skip(a as int)),
        decreases n - a,
    {
        assert(p@.skip(a as int).skip(1) =~= p@.skip(a + 1));
        a = a + 1;
    }
    let ghost t = p@.skip(a as int);
    assert(trim_start(p@) == t);
    let mut b: usize = n;
    while b > a && is_white_space(p[b - 1])
        invariant
            n == p@.len(),
            a <= b <= n,
            t == p@.skip(a as int),
            trim_end(t) == trim_end(p@.subrange(a as int, b as int)),
        decreases b,
    {
        assert(p@.subrange(a as int, b as int).drop_last() =~= p@.subrange(a as int, b - 1));
        b = b - 1;
    }
    assert(t =~= p@.subrange(a as int, n as int));
    let mut r: Vec<char> = Vec::new();
    let mut k: usize = a;
    while k < b
        invariant
            a <= k <= b,
            b <= p@.len(),
            r@ == p@.subrange(a as int, k as int),
        decreases b - k,
    {
        assert(p@.subrange(a as int, k + 1) =~= p@.subrange(a as int, k as int).push(p@[k as int]));
        r.push(p[k]);
        k = k + 1;
    }
    r
}

/// The argument texts of a cubic-bezier easing name, as character lists:
/// the name without each `cubic-bezier(` and each `)`, split at commas, each
/// piece trimmed of white space.
pub fn bezier_args(name: &str) -> (r: Vec<Vec<char>>)
    ensures
        r@.len() == bezier_arg_texts(name@).len(),
        forall|i: int| 0 <= i < r@.len() ==> (#[trigger] r@[i])@ == bezier_arg_texts(name@)[i],
{
    let cs = chars_of(name);
    let prefix = chars_of("cubic-bezier(");
    let close = chars_of(")");
    let a = remove_all(&cs, &prefix);
    let s = remove_all(&a, &close);
    let ghost sv = s@;
    let mut parts: Vec<Vec<char>> = Vec::new();
    let mut cur: Vec<char> = Vec::new();
    let n = s.len();
    let mut i: usize = 0;
    while i < n
        invariant
            n == sv.len(),
            sv == s@,
            i <= n,
            parts@.len() + 1 == split_at_char(sv.take(i as int), ',').len(),
            forall|k: int|
                0 <= k < parts@.len() ==> (#[trigger] parts@[k])@ == split_at_char(
                    sv.take(i as int),
                    ',',
                )[k],
            cur@ == split_at_char(sv.take(i as int), ',').last(),
        decreases n - i,
    {
        assert(sv.take(i as int + 1).drop_last() =~= sv.take(i as int));
        if s[i] == ',' {
            let done = cur;
            parts.push(done);
            cur = Vec::new();
        } else {
            cur.push(s[i]);
        }
        i = i + 1;
    }
    assert(sv.take(n as int) =~= sv);
    parts.push(cur);
    let ghost pieces = split_at_char(sv, ',');
    assert(parts@.len() == pieces.len());
    assert(forall|k: int| 0 <= k < parts@.len() ==> (#[trigger] parts@[k])@ == pieces[k]);
    let mut out: Vec<Vec<char>> = Vec::new();
    let mut k: usize = 0;
    while k < parts.len()
        invariant
            k <= parts@.len(),
            parts@.len() == pieces.len(),
            forall|j: int| 0 <= j < parts@.len() ==> (#[trigger] parts@[j])@ == pieces[j],
            out@.len() == k,
            forall|j: int|
                0 <= j < k ==> (#[trigger] out@[j])@ == trim_end(trim_start(pieces[j])),
        decreases parts@.len() - k,
    {
        out.push(trimmed(&parts[k]));
        k = k + 1;
    }
    out
}

} // verus!

//! Character-level text handling: whitespace trimming, splitting on a
//! separator, and reading decimal numbers.
use vstd::prelude::*;

verus! {

/// Unicode `White_Space` characters.
pub open spec fn is_ws(c: char) -> bool {
    ||| '\t' <= c <= '\r'
    ||| c == ' '
    ||| c == '\u{85}'
    ||| c == '\u{a0}'
    ||| c == '\u{1680}'
    ||| '\u{2000}' <= c <= '\u{200a}'
    ||| c == '\u{2028}'
    ||| c == '\u{2029}'
    ||| c == '\u{202f}'
    ||| c == '\u{205f}'
    ||| c == '\u{3000}'
}

pub fn is_whitespace(c: char) -> (r: bool)
    ensures
        r == is_ws(c),
{
    ('\t' <= c && c <= '\r') || c == ' ' || c == '\u{85}' || c == '\u{a0}' || c == '\u{1680}'
        || ('\u{2000}' <= c && c <= '\u{200a}') || c == '\u{2028}' || c == '\u{2029}' || c
        == '\u{202f}' || c == '\u{205f}' || c == '\u{3000}'
}

/// `s` without its leading whitespace.
pub open spec fn trim_start(s: Seq<char>) -> Seq<char>
    decreases s.len(),
{
    if s.len() > 0 && is_ws(s[0]) {
        trim_start(s.drop_first())
    } else {
        s
    }
}

/// `s` without its trailing whitespace.
pub open spec fn trim_end(s: Seq<char>) -> Seq<char>
    decreases s.len(),
{
    if s.len() > 0 && is_ws(s.last()) {
        trim_end(s.drop_last())
    } else {
        s
    }
}

/// `s` without leading and trailing whitespace.
pub open spec fn trim(s: Seq<char>) -> Seq<char> {
    trim_end(trim_start(s))
}

/// The pieces of `s` between occurrences of `sep`; one piece when `sep` does
/// not occur, and empty pieces where separators are adjacent or at an end.
pub open spec fn split(s: Seq<char>, sep: char) -> Seq<Seq<char>>
    decreases s.len(),
{
    if s.len() == 0 {
        seq![Seq::empty()]
    } else {
        let rest = split(s.drop_last(), sep);
        if s.last() == sep {
            rest.push(Seq::empty())
        } else {
            rest.update(rest.len() - 1, rest.last().push(s.last()))
        }
    }
}

/// Index of the first `c` in `s`.
pub open spec fn find_char(s: Seq<char>, c: char) -> Option<nat>
    decreases s.len(),
{
    if s.len() == 0 {
        None
    } else if s[0] == c {
        Some(0)
    } else {
        match find_char(s.drop_first(), c) {
            Some(i) => Some(i + 1),
            None => None,
        }
    }
}

/// Value of an ASCII decimal digit.
pub open spec fn digit_value(c: char) -> nat {
    (c as u32 - '0' as u32) as nat
}

pub open spec fn is_digit(c: char) -> bool {
    '0' <= c <= '9'
}

/// Value of a string of decimal digits; zero for the empty string.
pub open spec fn decimal(d: Seq<char>) -> nat
    decreases d.len(),
{
    if d.len() == 0 {
        0
    } else {
        decimal(d.drop_last()) * 10 + digit_value(d.last())
    }
}

/// Every character of `d` is a decimal digit.
pub open spec fn all_digits(d: Seq<char>) -> bool {
    forall|i: int| 0 <= i < d.len() ==> is_digit(#[trigger] d[i])
}

/// `s` without a leading `+`.
pub open spec fn unsigned_digits(s: Seq<char>) -> Seq<char> {
    if s.len() > 0 && s[0] == '+' {
        s.drop_first()
    } else {
        s
    }
}

/// A `u16` written in decimal: an optional `+`, then one or more digits
/// whose value is at most 65535. Leading zeros are allowed.
pub open spec fn parse_u16(s: Seq<char>) -> Option<u16> {
    let d = unsigned_digits(s);
    if d.len() > 0 && all_digits(d) && decimal(d) <= u16::MAX {
        Some(decimal(d) as u16)
    } else {
        None
    }
}

/// The characters of `s`, in order.
pub fn chars_of(s: &str) -> (r: Vec<char>)
    ensures
        r@ == s@,
{
    let n = s.unicode_len();
    let mut r: Vec<char> = Vec::new();
    let mut i: usize = 0;
    while i < n
        invariant
            n == s@.len(),
            i <= n,
            r@ == s@.subrange(0, i as int),
        decreases n - i,
    {
        r.push(s.get_char(i));
        i = i + 1;
        proof {
            assert(r@ =~= s@.subrange(0, i as int));
        }
    }
    proof {
        assert(r@ =~= s@);
    }
    r
}

/// Bounds `(a, b)` of the trimmed part of `v[lo..hi]`.
pub fn trim_bounds(v: &Vec<char>, lo: usize, hi: usize) -> (r: (usize, usize))
    requires
        lo <= hi <= v@.len(),
    ensures
        lo <= r.0 <= r.1 <= hi,
        v@.subrange(r.0 as int, r.1 as int) == trim(v@.subrange(lo as int, hi as int)),
{
    let ghost s = v@.subrange(lo as int, hi as int);
    let mut a: usize = lo;
    while a < hi && is_whitespace(v[a])
        invariant
            lo <= a <= hi,
            hi <= v@.len(),
            s == v@.subrange(lo as int, hi as int),
            trim_start(s) == trim_start(v@.subrange(a as int, hi as int)),
        decreases hi - a,
    {
        proof {
            let t = v@.subrange(a as int, hi as int);
            assert(t.drop_first() =~= v@.subrange(a as int + 1, hi as int));
        }
        a = a + 1;
    }
    proof {
        let t = v@.subrange(a as int, hi as int);
        if a == hi {
            assert(t =~= Seq::<char>::empty());
        }
        assert(trim_start(t) == t);
    }
    let mut b: usize = hi;
    while b > a && is_whitespace(v[b - 1])
        invariant
            lo <= a <= b <= hi,
            hi <= v@.len(),
            s == v@.subrange(lo as int, hi as int),
            trim(s) == trim_end(v@.subrange(a as int, b as int)),
        decreases b - a,
    {
        proof {
            let t = v@.subrange(a as int, b as int);
            assert(t.drop_last() =~= v@.subrange(a as int, b as int - 1));
        }
        b = b - 1;
    }
    proof {
        let t = v@.subrange(a as int, b as int);
        if a == b {
            assert(t =~= Seq::<char>::empty());
        }
        assert(trim_end(t) == t);
    }
    (a, b)
}

/// The pieces of `v` that `bounds` delimit.
pub open spec fn slices(v: Seq<char>, bounds: Seq<(usize, usize)>) -> Seq<Seq<char>> {
    bounds.map_values(|p: (usize, usize)| v.subrange(p.0 as int, p.1 as int))
}

/// Bounds of the pieces of `v` between occurrences of `sep`.
pub fn split_bounds(v: &Vec<char>, sep: char) -> (r: Vec<(usize, usize)>)
    ensures
        forall|i: int| 0 <= i < r@.len() ==> (#[trigger] r@[i]).0 <= r@[i].1 <= v@.len(),
        slices(v@, r@) == split(v@, sep),
{
    let mut pieces: Vec<(usize, usize)> = Vec::new();
    let mut start: usize = 0;
    let mut k: usize = 0;
    proof {
        assert(v@.subrange(0, 0) =~= Seq::<char>::empty());
        assert(slices(v@, pieces@) =~= Seq::<Seq<char>>::empty());
        assert(split(v@.subrange(0, 0), sep) =~~= slices(v@, pieces@).push(v@.subrange(0, 0)));
    }
    while k < v.len()
        invariant
            start <= k <= v@.len(),
            forall|i: int| 0 <= i < pieces@.len() ==> (#[trigger] pieces@[i]).0 <= pieces@[i].1 <= k,
            split(v@.subrange(0, k as int), sep) == slices(v@, pieces@).push(
                v@.subrange(start as int, k as int),
            ),
        decreases v@.len() - k,
    {
        let ghost before = v@.subrange(0, k as int);
        let ghost old_slices = slices(v@, pieces@);
        let ghost old_start = start;
        proof {
            assert(v@.subrange(0, k as int + 1).drop_last() =~= before);
            assert(v@.subrange(0, k as int + 1).last() == v@[k as int]);
        }
        if v[k] == sep {
            pieces.push((start, k));
            start = k + 1;
            proof {
                assert(slices(v@, pieces@) =~= old_slices.push(
                    v@.subrange(old_start as int, k as int),
                ));
                assert(split(v@.subrange(0, k as int + 1), sep) == old_slices.push(
                    v@.subrange(old_start as int, k as int),
                ).push(Seq::empty()));
                assert(v@.subrange(k as int + 1, k as int + 1) =~= Seq::<char>::empty());
            }
        } else {
            proof {
                assert(v@.subrange(start as int, k as int).push(v@[k as int]) =~= v@.subrange(
                    start as int,
                    k as int + 1,
                ));
                let rest = old_slices.push(v@.subrange(start as int, k as int));
                assert(split(v@.subrange(0, k as int + 1), sep) == rest.update(
                    rest.len() - 1,
                    rest.last().push(v@[k as int]),
                ));
            }
        }
        k = k + 1;
        proof {
            assert(split(v@.subrange(0, k as int), sep) =~~= slices(v@, pieces@).push(
                v@.subrange(start as int, k as int),
            ));
        }
    }
    pieces.push((start, k));
    proof {
        assert(v@.subrange(0, k as int) =~= v@);
        assert(slices(v@, pieces@) =~= slices(v@, pieces@.drop_last()).push(
            v@.subrange(start as int, k as int),
        ));
    }
    pieces
}

proof fn lemma_find_char(s: Seq<char>, c: char)
    ensures
        find_char(s, c) matches Some(i) ==> i < s.len() && s[i as int] == c && forall|k: int|
            0 <= k < i ==> s[k] != c,
        find_char(s, c) is None ==> forall|k: int| 0 <= k < s.len() ==> s[k] != c,
    decreases s.len(),
{
    if s.len() > 0 {
        lemma_find_char(s.drop_first(), c);
        assert forall|k: int| 0 < k < s.len() implies s[k] == s.drop_first()[k - 1] by {}
    }
}

/// Index of the first `c` in `v[lo..hi]`, counted from the start of `v`.
pub fn find_char_in(v: &Vec<char>, lo: usize, hi: usize, c: char) -> (r: Option<usize>)
    requires
        lo <= hi <= v@.len(),
    ensures
        match r {
            Some(m) => lo <= m < hi && find_char(v@.subrange(lo as int, hi as int), c) == Some(
                (m - lo) as nat,
            ),
            None => find_char(v@.subrange(lo as int, hi as int), c) is None,
        },
{
    let ghost s = v@.subrange(lo as int, hi as int);
    let mut k: usize = lo;
    while k < hi
        invariant
            lo <= k <= hi <= v@.len(),
            s == v@.subrange(lo as int, hi as int),
            forall|j: int| lo <= j < k ==> v@[j] != c,
        decreases hi - k,
    {
        if v[k] == c {
            proof {
                lemma_find_char(s, c);
                if find_char(s, c) is None {
                    assert(s[k - lo] == c);
                } else {
                    let i = find_char(s, c)->Some_0;
                    assert(s[i as int] == c);
                    assert(i >= k - lo);
                    if i > k - lo {
                        assert(s[k - lo] == c);
                    }
                }
            }
            return Some(k);
        }
        k = k + 1;
    }
    proof {
        lemma_find_char(s, c);
        if find_char(s, c) is Some {
            let i = find_char(s, c)->Some_0;
            assert(s[i as int] == v@[lo + i]);
        }
    }
    None
}

proof fn lemma_decimal_prefix(d: Seq<char>, j: int)
    requires
        0 <= j <= d.len(),
    ensures
        decimal(d.take(j)) <= decimal(d),
    decreases d.len(),
{
    if j < d.len() {
        lemma_decimal_prefix(d.drop_last(), j);
        assert(d.drop_last().take(j) =~= d.take(j));
    } else {
        assert(d.take(j) =~= d);
    }
}

/// Reads `v[lo..hi]` as a `u16`, as `parse_u16` says.
pub fn parse_u16_in(v: &Vec<char>, lo: usize, hi: usize) -> (r: Option<u16>)
    requires
        lo <= hi <= v@.len(),
    ensures
        r == parse_u16(v@.subrange(lo as int, hi as int)),
{
    let ghost s = v@.subrange(lo as int, hi as int);
    let a: usize = if lo < hi && v[lo] == '+' {
        lo + 1
    } else {
        lo
    };
    let ghost d = v@.subrange(a as int, hi as int);
    proof {
        if lo < hi && v@[lo as int] == '+' {
            assert(s.drop_first() =~= d);
        } else {
            assert(s =~= d);
        }
    }
    if a == hi {
        return None;
    }
    let mut value: u32 = 0;
    let mut k: usize = a;
    while k < hi
        invariant
            a <= k <= hi <= v@.len(),
            d == v@.subrange(a as int, hi as int),
            s == v@.subrange(lo as int, hi as int),
            d == unsigned_digits(s),
            value == decimal(d.take(k - a)),
            value <= u16::MAX,
            forall|j: int| 0 <= j < k - a ==> is_digit(#[trigger] d[j]),
        decreases hi - k,
    {
        let c = v[k];
        if !('0' <= c && c <= '9') {
            proof {
                assert(d[k - a] == c);
                assert(!is_digit(d[k - a]));
            }
            return None;
        }
        proof {
            assert(d.take(k - a + 1).drop_last() =~= d.take(k - a));
        }
        value = value * 10 + (c as u32 - '0' as u32);
        k = k + 1;
        if value > u16::MAX as u32 {
            proof {
                if all_digits(d) {
                    lemma_decimal_prefix(d, k - a);
                }
            }
            return None;
        }
    }
    proof {
        assert(d.take(k - a) =~= d);
    }
    Some(value as u16)
}

} // verus!

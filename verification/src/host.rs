//! Classification of host strings: dotted-decimal IPv4 literals and the
//! IPv4 loopback range `127.0.0.0/8`.
//!
//! Host strings reaching this module come out of a URL parser, which hands
//! IPv4 hosts back in canonical dotted-decimal form: four dot-separated
//! decimal octets, each at most 255, with no leading zero. That canonical
//! grammar is what is recognized here; IPv6 hosts are matched elsewhere
//! against the one loopback address in its canonical spelling.

use vstd::prelude::*;

use crate::text::all_digits;
use crate::text::digit_of;
use crate::text::digits_value;

verus! {

/// The position of the first `.` in `s`, if any.
pub open spec fn find_dot(s: Seq<char>) -> Option<int>
    decreases s.len(),
{
    if s.len() == 0 {
        None
    } else if s[0] == '.' {
        Some(0)
    } else {
        match find_dot(s.drop_first()) {
            Some(i) => Some(i + 1),
            None => None,
        }
    }
}

/// A found dot lies inside the string.
proof fn lemma_find_dot_in_range(s: Seq<char>)
    ensures
        find_dot(s) matches Some(i) ==> 0 <= i < s.len() && s[i] == '.',
    decreases s.len(),
{
    if s.len() > 0 && s[0] != '.' {
        lemma_find_dot_in_range(s.drop_first());
    }
}

/// The dot-separated fields of `s`, in order; one field, `s` itself, when
/// `s` holds no dot.
pub open spec fn split_dots(s: Seq<char>) -> Seq<Seq<char>>
    decreases s.len(),
    via split_dots_decreases
{
    match find_dot(s) {
        None => seq![s],
        Some(i) => seq![s.take(i)] + split_dots(s.skip(i + 1)),
    }
}

#[via_fn]
proof fn split_dots_decreases(s: Seq<char>) {
    lemma_find_dot_in_range(s);
}

/// `s` holds no dot.
pub open spec fn dot_free(s: Seq<char>) -> bool {
    forall|i: int| 0 <= i < s.len() ==> s[i] != '.'
}

proof fn lemma_find_dot_none(s: Seq<char>)
    requires
        dot_free(s),
    ensures
        find_dot(s) is None,
    decreases s.len(),
{
    if s.len() > 0 {
        let d = s.drop_first();
        assert(forall|i: int| 0 <= i < d.len() ==> #[trigger] d[i] != '.');
        lemma_find_dot_none(d);
    }
}

proof fn lemma_find_dot_concat(x: Seq<char>, y: Seq<char>)
    requires
        dot_free(x),
    ensures
        find_dot(x + seq!['.'] + y) == Some(x.len() as int),
    decreases x.len(),
{
    let s = x + seq!['.'] + y;
    if x.len() == 0 {
        assert(s[0] == '.');
    } else {
        assert(s[0] == x[0]);
        let xd = x.drop_first();
        assert(forall|i: int| 0 <= i < xd.len() ==> #[trigger] xd[i] != '.');
        lemma_find_dot_concat(xd, y);
        assert(s.drop_first() =~= xd + seq!['.'] + y);
    }
}

/// Splitting a string whose first field is `x` yields `x` and then the
/// fields of the rest.
pub proof fn lemma_split_dots_concat(x: Seq<char>, y: Seq<char>)
    requires
        dot_free(x),
    ensures
        split_dots(x + seq!['.'] + y) == seq![x] + split_dots(y),
{
    let s = x + seq!['.'] + y;
    lemma_find_dot_concat(x, y);
    assert(s.take(x.len() as int) =~= x);
    assert(s.skip(x.len() as int + 1) =~= y);
}

/// A dot-free string splits into itself alone.
pub proof fn lemma_split_dots_single(s: Seq<char>)
    requires
        dot_free(s),
    ensures
        split_dots(s) == seq![s],
{
    lemma_find_dot_none(s);
}

/// A canonical decimal octet: one to three digits, value at most 255, no
/// leading zero.
pub open spec fn is_octet(s: Seq<char>) -> bool {
    &&& 1 <= s.len() <= 3
    &&& all_digits(s)
    &&& digits_value(s) <= 255
    &&& (s.len() > 1 ==> s[0] != '0')
}

/// A canonical dotted-decimal IPv4 literal.
pub open spec fn is_ipv4_literal(s: Seq<char>) -> bool {
    &&& split_dots(s).len() == 4
    &&& forall|k: int| 0 <= k < 4 ==> is_octet(#[trigger] split_dots(s)[k])
}

/// An IPv4 literal in the loopback range `127.0.0.0/8`.
pub open spec fn is_ipv4_loopback(s: Seq<char>) -> bool {
    is_ipv4_literal(s) && digits_value(split_dots(s)[0]) == 127
}

/// Check one dot-free field against the octet grammar, yielding its value.
fn check_octet(part: &Vec<char>) -> (r: Option<u16>)
    ensures
        r is Some <==> is_octet(part@),
        r matches Some(v) ==> v == digits_value(part@),
{
    let n = part.len();
    if n < 1 || n > 3 {
        return None;
    }
    if n > 1 {
        if part[0] == '0' {
            return None;
        }
    }
    let mut value: u32 = 0;
    let mut j: usize = 0;
    while j < n
        invariant
            j <= n,
            n == part@.len(),
            1 <= n <= 3,
            all_digits(part@.take(j as int)),
            value == digits_value(part@.take(j as int)),
            j == 0 ==> value == 0,
            j == 1 ==> value <= 9,
            j == 2 ==> value <= 99,
            j == 3 ==> value <= 999,
        decreases n - j,
    {
        let ghost done = part@.take(j as int);
        let ghost next = part@.take(j + 1);
        proof {
            assert(next.drop_last() =~= done);
            assert(next.last() == part@[j as int]);
        }
        match digit_of(part[j]) {
            None => {
                proof {
                    assert(!all_digits(part@));
                }
                return None;
            },
            Some(d) => {
                if j == 0 {
                    value = d;
                } else {
                    value = value * 10 + d;
                }
                proof {
                    if j == 0 {
                        assert(done =~= Seq::<char>::empty());
                    }
                }
                j += 1;
            },
        }
    }
    proof {
        assert(part@.take(n as int) =~= part@);
    }
    if value > 255 {
        return None;
    }
    Some(value as u16)
}

/// Decide whether `host` is a canonical IPv4 literal in the loopback
/// range: four octets, the first being 127.
pub fn ipv4_loopback(host: &Vec<char>) -> (r: bool)
    ensures
        r == is_ipv4_loopback(host@),
{
    let ghost s = host@;
    let n = host.len();
    let mut parts: Vec<Vec<char>> = Vec::new();
    let mut cur: Vec<char> = Vec::new();
    let mut i: usize = 0;
    proof {
        assert(cur@ + s.skip(0) =~= s);
        assert(parts@.map_values(|p: Vec<char>| p@) + split_dots(cur@ + s.skip(0)) =~= split_dots(
            s,
        ));
    }
    while i < n
        invariant
            i <= n,
            n == s.len(),
            host@ == s,
            dot_free(cur@),
            split_dots(s) == parts@.map_values(|p: Vec<char>| p@) + split_dots(
                cur@ + s.skip(i as int),
            ),
            forall|k: int| 0 <= k < parts@.len() ==> dot_free(#[trigger] parts@[k]@),
        decreases n - i,
    {
        let c = host[i];
        let ghost rest = s.skip(i as int);
        let ghost rest1 = s.skip(i + 1);
        proof {
            assert(rest =~= seq![s[i as int]] + rest1);
        }
        if c == '.' {
            proof {
                assert(cur@ + rest =~= cur@ + seq!['.'] + rest1);
                lemma_split_dots_concat(cur@, rest1);
            }
            let finished = cur;
            parts.push(finished);
            cur = Vec::new();
            proof {
                assert(parts@.map_values(|p: Vec<char>| p@) =~= parts@.drop_last().map_values(
                    |p: Vec<char>| p@,
                ).push(finished@));
                assert(cur@ + rest1 =~= rest1);
            }
        } else {
            proof {
                assert(cur@ + rest =~= (cur@.push(c)) + rest1);
                assert(forall|k: int|
                    0 <= k < cur@.push(c).len() ==> #[trigger] cur@.push(c)[k] != '.');
            }
            cur.push(c);
        }
        i += 1;
    }
    proof {
        assert(cur@ + s.skip(n as int) =~= cur@);
        lemma_split_dots_single(cur@);
    }
    parts.push(cur);
    proof {
        assert(parts@.map_values(|p: Vec<char>| p@) =~= parts@.drop_last().map_values(
            |p: Vec<char>| p@,
        ) + seq![parts@.last()@]);
        assert(split_dots(s) == parts@.map_values(|p: Vec<char>| p@));
    }
    if parts.len() != 4 {
        return false;
    }
    let mut k: usize = 0;
    let mut first_value: u16 = 0;
    while k < 4
        invariant
            k <= 4,
            host@ == s,
            parts@.len() == 4,
            split_dots(s) == parts@.map_values(|p: Vec<char>| p@),
            forall|m: int| 0 <= m < k ==> is_octet(#[trigger] split_dots(s)[m]),
            k > 0 ==> first_value == digits_value(split_dots(s)[0]),
        decreases 4 - k,
    {
        match check_octet(&parts[k]) {
            None => {
                proof {
                    assert(split_dots(s)[k as int] == parts@[k as int]@);
                }
                return false;
            },
            Some(v) => {
                proof {
                    assert(split_dots(s)[k as int] == parts@[k as int]@);
                }
                if k == 0 {
                    first_value = v;
                }
            },
        }
        k += 1;
    }
    first_value == 127
}

} // verus!

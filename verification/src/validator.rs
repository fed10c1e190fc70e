//! Port-string validation: trim surrounding whitespace, parse a base-10
//! number, and range-check it into a 16-bit port, with a distinct error
//! for each way the input can be rejected.

use vstd::prelude::*;
use vstd::string::StringExecFns;

use crate::text::all_digits;
use crate::text::chars_vec;
use crate::text::dec_str_of;
use crate::text::digit_of;
use crate::text::digit_val;
use crate::text::digits_value;
use crate::text::is_space;
use crate::text::is_space_char;
use crate::text::lemma_digits_value_grows;
use crate::text::u16_dec_string;

verus! {

/// Why a port string was rejected.
#[derive(Clone, Copy, Debug, PartialEq, Eq, Structural)]
pub enum ValidationError {
    /// The string is empty once whitespace is trimmed.
    Empty,
    /// The trimmed string is not a base-10 number that fits in 32 bits.
    NotNumber,
    /// The number is above 65535; carries the parsed value.
    OutOfRange(u32),
    /// Port zero is never valid.
    ZeroNotAllowed,
}

/// `s` with its leading whitespace removed.
pub open spec fn trim_start_spec(s: Seq<char>) -> Seq<char>
    decreases s.len(),
{
    if s.len() > 0 && is_space_char(s[0]) {
        trim_start_spec(s.drop_first())
    } else {
        s
    }
}

/// `s` with its trailing whitespace removed.
pub open spec fn trim_end_spec(s: Seq<char>) -> Seq<char>
    decreases s.len(),
{
    if s.len() > 0 && is_space_char(s.last()) {
        trim_end_spec(s.drop_last())
    } else {
        s
    }
}

/// `s` with surrounding whitespace removed.
pub open spec fn trim_spec(s: Seq<char>) -> Seq<char> {
    trim_end_spec(trim_start_spec(s))
}

/// If the first `k` characters are whitespace and the next one is not,
/// trimming the start drops exactly those `k`.
proof fn lemma_trim_start_at(s: Seq<char>, k: int)
    requires
        0 <= k <= s.len(),
        forall|i: int| 0 <= i < k ==> is_space_char(s[i]),
        k < s.len() ==> !is_space_char(s[k]),
    ensures
        trim_start_spec(s) == s.skip(k),
    decreases k,
{
    if k == 0 {
        assert(s.skip(0) =~= s);
    } else {
        let d = s.drop_first();
        assert(forall|i: int| 0 <= i < k - 1 ==> is_space_char(#[trigger] d[i]));
        assert(k - 1 < d.len() ==> !is_space_char(d[k - 1]));
        lemma_trim_start_at(d, k - 1);
        assert(d.skip(k - 1) =~= s.skip(k));
    }
}

/// If everything from index `k` on is whitespace and the character before
/// `k` is not, trimming the end keeps exactly the first `k`.
proof fn lemma_trim_end_at(s: Seq<char>, k: int)
    requires
        0 <= k <= s.len(),
        forall|i: int| k <= i < s.len() ==> is_space_char(s[i]),
        k > 0 ==> !is_space_char(s[k - 1]),
    ensures
        trim_end_spec(s) == s.take(k),
    decreases s.len() - k,
{
    if k == s.len() {
        assert(s.take(k) =~= s);
    } else {
        let d = s.drop_last();
        assert(forall|i: int| k <= i < d.len() ==> is_space_char(#[trigger] d[i]));
        lemma_trim_end_at(d, k);
        assert(d.take(k) =~= s.take(k));
    }
}

/// A trimmed port string with its optional leading `+` sign removed.
pub open spec fn sign_body(t: Seq<char>) -> Seq<char> {
    if t.len() > 0 && t[0] == '+' {
        t.drop_first()
    } else {
        t
    }
}

/// The number a trimmed port string denotes: an optional `+` sign followed
/// by at least one digit, with a value that fits in 32 bits.
pub open spec fn parse_port_number(t: Seq<char>) -> Option<int> {
    let body = sign_body(t);
    if body.len() > 0 && all_digits(body) && digits_value(body) <= u32::MAX {
        Some(digits_value(body))
    } else {
        None
    }
}

/// What `validate_port_str` returns for a given input.
pub open spec fn validate_spec(s: Seq<char>) -> Result<u16, ValidationError> {
    let t = trim_spec(s);
    if t.len() == 0 {
        Err(ValidationError::Empty)
    } else {
        match parse_port_number(t) {
            None => Err(ValidationError::NotNumber),
            Some(n) => if n == 0 {
                Err(ValidationError::ZeroNotAllowed)
            } else if n > 65535 {
                Err(ValidationError::OutOfRange(n as u32))
            } else {
                Ok(n as u16)
            },
        }
    }
}

/// Every string whose trimmed form denotes a number between 1 and 65535
/// validates to exactly that number; no other outcome is possible.
pub proof fn lemma_validate_in_range(s: Seq<char>, n: int)
    requires
        parse_port_number(trim_spec(s)) == Some(n),
        1 <= n <= 65535,
    ensures
        validate_spec(s) == Ok::<u16, ValidationError>(n as u16),
{
}

/// Validate a port string: trim whitespace, reject empty or non-numeric
/// input, reject zero and out-of-range values, otherwise narrow to `u16`.
pub fn validate_port_str(port_str: &str) -> (r: Result<u16, ValidationError>)
    ensures
        r == validate_spec(port_str@),
{
    let ghost s = port_str@;
    let v = chars_vec(port_str);
    let n = v.len();

    let mut start: usize = 0;
    while start < n && is_space(v[start])
        invariant
            start <= n,
            n == s.len(),
            v@ == s,
            forall|i: int| 0 <= i < start ==> is_space_char(s[i]),
        decreases n - start,
    {
        start += 1;
    }
    proof {
        lemma_trim_start_at(s, start as int);
    }
    if start == n {
        proof {
            assert(s.skip(start as int).len() == 0);
        }
        return Err(ValidationError::Empty);
    }

    let mut end: usize = n;
    while end > start && is_space(v[end - 1])
        invariant
            start < end <= n,
            n == s.len(),
            v@ == s,
            !is_space_char(s[start as int]),
            forall|i: int| end <= i < n ==> is_space_char(s[i]),
        decreases end,
    {
        end -= 1;
    }
    let ghost t = s.subrange(start as int, end as int);
    proof {
        let tail = s.skip(start as int);
        assert(forall|i: int| end - start <= i < tail.len() ==> is_space_char(#[trigger] tail[i]))
            by {
            assert(forall|i: int| end - start <= i < tail.len() ==> tail[i] == s[i
                + start as int]);
        }
        assert(!is_space_char(tail[end - start - 1]));
        lemma_trim_end_at(tail, end - start);
        assert(tail.take(end - start) =~= t);
        assert(trim_spec(s) == t);
        assert(t.len() > 0);
    }

    let mut i: usize = start;
    if v[i] == '+' {
        i += 1;
    }
    let ghost body = s.subrange(i as int, end as int);
    proof {
        if s[start as int] == '+' {
            assert(t[0] == '+');
            assert(t.drop_first() =~= body);
        } else {
            assert(t =~= body);
        }
    }
    if i == end {
        // A bare sign: the digit part is empty.
        return Err(ValidationError::NotNumber);
    }

    let mut value: u64 = 0;
    let mut over: bool = false;
    let mut j: usize = i;
    while j < end
        invariant
            i <= j <= end <= n,
            n == s.len(),
            s == port_str@,
            v@ == s,
            t == trim_spec(s),
            t.len() > 0,
            body == sign_body(t),
            body == s.subrange(i as int, end as int),
            all_digits(body.take(j - i)),
            !over ==> value == digits_value(body.take(j - i)) && value <= u32::MAX,
            over ==> digits_value(body.take(j - i)) > u32::MAX,
        decreases end - j,
    {
        let ghost done = body.take(j - i);
        let ghost next = body.take(j + 1 - i);
        proof {
            assert(next.drop_last() =~= done);
            assert(next.last() == s[j as int]);
        }
        match digit_of(v[j]) {
            None => {
                proof {
                    assert(body[j - i] == s[j as int]);
                    assert(!all_digits(body));
                }
                return Err(ValidationError::NotNumber);
            },
            Some(d) => {
                proof {
                    assert(all_digits(next));
                    assert(digits_value(next) == digits_value(done) * 10 + digit_val(s[
                        j as int]));
                }
                if !over {
                    let nv: u64 = value * 10 + d as u64;
                    if nv > 0xFFFF_FFFF {
                        over = true;
                    } else {
                        value = nv;
                    }
                } else {
                    proof {
                        assert(all_digits(next));
                        lemma_digits_value_grows(next);
                    }
                }
                j += 1;
            },
        }
    }
    proof {
        assert(body.take(end - i) =~= body);
    }
    if over {
        return Err(ValidationError::NotNumber);
    }
    let value32: u32 = value as u32;
    if value32 == 0 {
        Err(ValidationError::ZeroNotAllowed)
    } else if value32 > 65535 {
        Err(ValidationError::OutOfRange(value32))
    } else {
        Ok(value32 as u16)
    }
}

/// The URL that points a browser at `localhost` on the given port.
pub open spec fn url_for_port_spec(port: u16, https: bool) -> Seq<char> {
    (if https {
        "https"@
    } else {
        "http"@
    }) + "://localhost:"@ + dec_str_of(port as int)
}

/// Build `http://localhost:<port>` (or the `https` form).
pub fn format_url(port: u16, use_https: bool) -> (r: String)
    ensures
        r@ == url_for_port_spec(port, use_https),
{
    let scheme = if use_https {
        "https"
    } else {
        "http"
    };
    let base = String::from_str(scheme).concat("://localhost:");
    let digits = u16_dec_string(port);
    let r = base.concat(digits.as_str());
    proof {
        assert(r@ =~= url_for_port_spec(port, use_https));
    }
    r
}

/// How many ports after `start` a scan may probe: up to one hundred, but
/// never past 65535.
pub open spec fn probe_span(start: u16) -> int {
    if 65535 - start >= 100 {
        100
    } else {
        65535 - start
    }
}

/// The first probed port reported available, scanning from offset `i`;
/// `start` itself if none is.
pub open spec fn suggest_rec(start: u16, avail: Seq<bool>, i: int) -> u16
    decreases probe_span(start) - i,
{
    if 0 <= i < probe_span(start) && i < avail.len() {
        if avail[i] {
            (start + i) as u16
        } else {
            suggest_rec(start, avail, i + 1)
        }
    } else {
        start
    }
}

/// What `suggest_port` returns for given availability answers.
pub open spec fn suggest_spec(start: u16, avail: Seq<bool>) -> u16 {
    suggest_rec(start, avail, 0)
}

/// Suggest a port near `start_port`: the first of up to one hundred
/// consecutive ports that `available` reports free (entry `i` answering
/// for port `start_port + i`), or `start_port` itself if none is.
pub fn suggest_port(start_port: u16, available: &Vec<bool>) -> (r: u16)
    ensures
        r == suggest_spec(start_port, available@),
{
    let span: usize = if 65535 - start_port >= 100 {
        100
    } else {
        (65535 - start_port) as usize
    };
    let mut i: usize = 0;
    while i < span && i < available.len()
        invariant
            span == probe_span(start_port),
            i <= span,
            suggest_spec(start_port, available@) == suggest_rec(start_port, available@, i as int),
        decreases span - i,
    {
        if available[i] {
            return start_port + (i as u16);
        }
        i += 1;
    }
    start_port
}

} // verus!

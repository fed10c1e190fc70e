//! The navigation security filter: given a policy, decide whether a
//! requested URL may be followed. Only `http` and `https` URLs whose host
//! is local — `localhost` or a loopback address — pass, and in strict mode
//! only on a port from the policy's allow-list.

use vstd::prelude::*;
use vstd::seq_lib::*;

use crate::host::ipv4_loopback;
use crate::host::is_ipv4_loopback;
use crate::text::chars_vec;
use crate::text::str_eq_str;

verus! {

/// Which hosts count as local, which ports are allowed, and whether the
/// port allow-list is enforced.
#[derive(Debug)]
pub struct SecurityPolicy {
    /// Accept the host name `localhost`.
    pub allow_localhost: bool,
    /// Accept loopback IP addresses.
    pub allow_loopback: bool,
    /// Ports that strict mode accepts.
    pub allowed_ports: Vec<u16>,
    /// When set, the port of a local URL must be on the allow-list;
    /// when clear, any port on a local host passes.
    pub strict_mode: bool,
}

/// Copy a port list element by element.
fn copy_ports(v: &Vec<u16>) -> (r: Vec<u16>)
    ensures
        r@ == v@,
{
    let mut r: Vec<u16> = Vec::new();
    let mut i: usize = 0;
    while i < v.len()
        invariant
            i <= v.len(),
            r@ == v@.take(i as int),
        decreases v.len() - i,
    {
        r.push(v[i]);
        proof {
            assert(v@.take(i + 1) =~= v@.take(i as int).push(v@[i as int]));
        }
        i += 1;
    }
    proof {
        assert(v@.take(v@.len() as int) =~= v@);
    }
    r
}

impl Clone for SecurityPolicy {
    /// An exact copy of the policy.
    fn clone(&self) -> (r: Self)
        ensures
            r.allow_localhost == self.allow_localhost,
            r.allow_loopback == self.allow_loopback,
            r.allowed_ports@ == self.allowed_ports@,
            r.strict_mode == self.strict_mode,
    {
        SecurityPolicy {
            allow_localhost: self.allow_localhost,
            allow_loopback: self.allow_loopback,
            allowed_ports: copy_ports(&self.allowed_ports),
            strict_mode: self.strict_mode,
        }
    }
}

impl Default for SecurityPolicy {
    /// The default policy: local host names and loopback addresses pass,
    /// strict mode is on, and the allow-list holds the common local
    /// development ports 80, 443, 3000, 8080 and 5173.
    fn default() -> (p: Self)
        ensures
            p.allow_localhost,
            p.allow_loopback,
            p.strict_mode,
            p.allowed_ports@ == seq![80u16, 443u16, 3000u16, 8080u16, 5173u16],
    {
        let mut ports: Vec<u16> = Vec::new();
        ports.push(80);
        ports.push(443);
        ports.push(3000);
        ports.push(8080);
        ports.push(5173);
        proof {
            assert(ports@ =~= seq![80u16, 443u16, 3000u16, 8080u16, 5173u16]);
        }
        SecurityPolicy {
            allow_localhost: true,
            allow_loopback: true,
            allowed_ports: ports,
            strict_mode: true,
        }
    }
}

/// What a URL parser yields for a given request string: the scheme, the
/// host if there is one, and the port if the URL names one explicitly
/// (a scheme's default port counts as absent).
pub uninterp spec fn url_parts_of(s: Seq<char>) -> Option<
    (Seq<char>, Option<Seq<char>>, Option<u16>),
>;

/// Relies on `url::Url::parse` and the accessors `Url::scheme`,
/// `Url::host_str` and `Url::port`: parsing is a function of the request
/// string alone, the scheme comes back lower-cased without the `:`, the
/// host string carries IPv4 hosts in canonical dotted-decimal form and
/// IPv6 hosts between brackets, and the port is `None` when the URL leaves
/// it to the scheme's default.
#[verifier::external_body]
fn parse_url_parts(s: &str) -> (r: Option<(String, Option<String>, Option<u16>)>)
    ensures
        match r {
            None => url_parts_of(s@) is None,
            Some(p) => {
                &&& url_parts_of(s@) matches Some(q)
                &&& p.0@ == q.0
                &&& match (p.1, q.1) {
                    (None, None) => true,
                    (Some(h), Some(hq)) => h@ == hq,
                    _ => false,
                }
                &&& p.2 == q.2
            },
        },
{
    match url::Url::parse(s) {
        Ok(u) => {
            let scheme = u.scheme().to_string();
            let host = match u.host_str() {
                None => None,
                Some(h) => Some(h.to_string()),
            };
            Some((scheme, host, u.port()))
        },
        Err(_) => None,
    }
}

/// The port a URL addresses: the explicit one, or 80 when none is given.
pub open spec fn port_or_default(p: Option<u16>) -> u16 {
    match p {
        Some(x) => x,
        None => 80,
    }
}

/// A host string that the policy counts as local: the name `localhost`,
/// the canonical loopback literals `127.0.0.1` and `::1`, or any IPv4
/// literal in `127.0.0.0/8`.
pub open spec fn is_local_host_spec(policy: SecurityPolicy, host: Seq<char>) -> bool {
    ||| policy.allow_localhost && host == "localhost"@
    ||| policy.allow_loopback && (host == "127.0.0.1"@ || host == "::1"@ || is_ipv4_loopback(host))
}

/// A port the policy accepts: any port when strict mode is off, else one
/// on the allow-list.
pub open spec fn is_allowed_port_spec(policy: SecurityPolicy, port: u16) -> bool {
    !policy.strict_mode || policy.allowed_ports@.contains(port)
}

/// The filter's decision for a request string: empty requests pass;
/// anything that does not parse as an `http` or `https` URL with a local
/// host and an accepted port is denied.
pub open spec fn is_allowed_spec(policy: SecurityPolicy, url: Seq<char>) -> bool {
    if url.len() == 0 {
        true
    } else {
        match url_parts_of(url) {
            None => false,
            Some(parts) => {
                &&& (parts.0 == "http"@ || parts.0 == "https"@)
                &&& match parts.1 {
                    Some(host) => is_local_host_spec(policy, host) && is_allowed_port_spec(
                        policy,
                        port_or_default(parts.2),
                    ),
                    None => false,
                }
            },
        }
    }
}

/// Evaluates navigation requests against a fixed policy.
pub struct SecurityFilter {
    policy: SecurityPolicy,
}

impl SecurityFilter {
    /// The policy this filter decides by.
    pub closed spec fn policy(&self) -> SecurityPolicy {
        self.policy
    }

    /// A filter over a copy of the given policy.
    pub fn new(policy: &SecurityPolicy) -> (f: Self)
        ensures
            f.policy().allow_localhost == policy.allow_localhost,
            f.policy().allow_loopback == policy.allow_loopback,
            f.policy().allowed_ports@ == policy.allowed_ports@,
            f.policy().strict_mode == policy.strict_mode,
    {
        SecurityFilter { policy: policy.clone() }
    }

    /// Decide one navigation request.
    pub fn is_allowed(&self, request_url: &str) -> (r: bool)
        ensures
            r == is_allowed_spec(self.policy(), request_url@),
    {
        if request_url.is_empty() {
            return true;
        }
        match parse_url_parts(request_url) {
            None => false,
            Some((scheme, host_opt, port_opt)) => {
                if !(str_eq_str(scheme.as_str(), "http") || str_eq_str(scheme.as_str(), "https")) {
                    return false;
                }
                match host_opt {
                    None => false,
                    Some(host) => {
                        if self.is_local_host(host.as_str()) {
                            let port = match port_opt {
                                Some(p) => p,
                                None => 80,
                            };
                            self.is_allowed_port(port)
                        } else {
                            false
                        }
                    },
                }
            },
        }
    }

    /// Classify a host string as local or not, per the policy.
    fn is_local_host(&self, host: &str) -> (r: bool)
        ensures
            r == is_local_host_spec(self.policy, host@),
    {
        if self.policy.allow_localhost && str_eq_str(host, "localhost") {
            return true;
        }
        if self.policy.allow_loopback {
            if str_eq_str(host, "127.0.0.1") || str_eq_str(host, "::1") {
                return true;
            }
            let hv = chars_vec(host);
            return ipv4_loopback(&hv);
        }
        false
    }

    /// Decide a port, per the policy's strict-mode switch and allow-list.
    pub fn is_allowed_port(&self, port: u16) -> (r: bool)
        ensures
            r == is_allowed_port_spec(self.policy(), port),
    {
        if !self.policy.strict_mode {
            return true;
        }
        let v = &self.policy.allowed_ports;
        let mut i: usize = 0;
        while i < v.len()
            invariant
                i <= v.len(),
                v@ == self.policy().allowed_ports@,
                forall|k: int| 0 <= k < i ==> v@[k] != port,
            decreases v.len() - i,
        {
            if v[i] == port {
                return true;
            }
            i += 1;
        }
        proof {
            assert(!v@.contains(port));
        }
        false
    }

    /// Keep exactly the allowed URLs, in their original order.
    pub fn filter_urls(&self, urls: Vec<String>) -> (r: Vec<String>)
        ensures
            r@.map_values(|s: String| s@) == filter_spec(
                self.policy(),
                urls@.map_values(|s: String| s@),
            ),
    {
        let ghost all = urls@.map_values(|s: String| s@);
        let mut r: Vec<String> = Vec::new();
        let mut i: usize = 0;
        proof {
            reveal(Seq::filter);
            assert(all.take(0) =~= Seq::<Seq<char>>::empty());
            assert(r@.map_values(|s: String| s@) =~= filter_spec(self.policy(), all.take(0)));
        }
        while i < urls.len()
            invariant
                i <= urls.len(),
                all == urls@.map_values(|s: String| s@),
                r@.map_values(|s: String| s@) == filter_spec(self.policy(), all.take(i as int)),
            decreases urls.len() - i,
        {
            let ghost done = all.take(i as int);
            let ghost next = all.take(i + 1);
            proof {
                reveal(Seq::filter);
                assert(next.drop_last() =~= done);
                assert(next.last() == all[i as int]);
            }
            let u = &urls[i];
            if self.is_allowed(u.as_str()) {
                r.push(u.clone());
                proof {
                    assert(r@.map_values(|s: String| s@) =~= r@.drop_last().map_values(
                        |s: String| s@,
                    ).push(r@.last()@));
                }
            }
            i += 1;
        }
        proof {
            assert(all.take(urls@.len() as int) =~= all);
        }
        r
    }
}

/// Malformed input is denied, never errored: a non-empty request that the
/// URL parser rejects is refused under every policy.
pub proof fn lemma_malformed_denied(policy: SecurityPolicy, url: Seq<char>)
    requires
        url.len() > 0,
        url_parts_of(url) is None,
    ensures
        !is_allowed_spec(policy, url),
{
}

/// With strict mode off the port never decides: every port passes the
/// port check.
pub proof fn lemma_non_strict_ignores_port(policy: SecurityPolicy, port: u16)
    requires
        !policy.strict_mode,
    ensures
        is_allowed_port_spec(policy, port),
{
}

/// The allowed subsequence of a sequence of request strings.
pub open spec fn filter_spec(policy: SecurityPolicy, urls: Seq<Seq<char>>) -> Seq<Seq<char>> {
    urls.filter(|u: Seq<char>| is_allowed_spec(policy, u))
}

/// Each URL is judged independently of its neighbours, and relative order
/// is preserved: filtering a list extended by one URL appends that URL
/// exactly when it is allowed on its own.
pub proof fn lemma_filter_urls_step(policy: SecurityPolicy, urls: Seq<Seq<char>>, u: Seq<char>)
    ensures
        filter_spec(policy, urls.push(u)) == if is_allowed_spec(policy, u) {
            filter_spec(policy, urls).push(u)
        } else {
            filter_spec(policy, urls)
        },
{
    reveal(Seq::filter);
    assert(urls.push(u).drop_last() =~= urls);
    assert(urls.push(u).last() == u);
}

/// The filtered list keeps every allowed URL of the input and holds
/// nothing but allowed URLs drawn from the input.
pub proof fn lemma_filter_urls_membership(policy: SecurityPolicy, urls: Seq<Seq<char>>)
    ensures
        forall|i: int|
            0 <= i < filter_spec(policy, urls).len() ==> is_allowed_spec(
                policy,
                #[trigger] filter_spec(policy, urls)[i],
            ) && urls.contains(filter_spec(policy, urls)[i]),
        forall|i: int|
            0 <= i < urls.len() && is_allowed_spec(policy, #[trigger] urls[i]) ==> filter_spec(
                policy,
                urls,
            ).contains(urls[i]),
    decreases urls.len(),
{
    let pred = |u: Seq<char>| is_allowed_spec(policy, u);
    broadcast use Seq::lemma_filter_pred;
    broadcast use Seq::lemma_filter_contains;

    assert forall|i: int| 0 <= i < filter_spec(policy, urls).len() implies urls.contains(
        filter_spec(policy, urls)[i],
    ) by {
        lemma_filter_subset(policy, urls, i);
    }
}

/// Whatever the filter keeps occurs in its input.
proof fn lemma_filter_subset(policy: SecurityPolicy, urls: Seq<Seq<char>>, i: int)
    requires
        0 <= i < filter_spec(policy, urls).len(),
    ensures
        urls.contains(filter_spec(policy, urls)[i]),
    decreases urls.len(),
{
    reveal(Seq::filter);
    broadcast use Seq::lemma_filter_len;

    if urls.len() > 0 {
        let prefix = urls.drop_last();
        if i < filter_spec(policy, prefix).len() {
            lemma_filter_subset(policy, prefix, i);
            let j = choose|j: int|
                0 <= j < prefix.len() && prefix[j] == filter_spec(policy, prefix)[i];
            assert(urls[j] == filter_spec(policy, urls)[i]);
        } else {
            assert(filter_spec(policy, urls)[i] == urls.last());
            assert(urls[urls.len() - 1] == urls.last());
        }
    }
}

} // verus!

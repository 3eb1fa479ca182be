use vstd::prelude::*;
use crate::emulation::{
    Bias, DESKTOP_BIAS_PERCENT, Profile, get_random_emulation, get_random_desktop_emulation,
    get_random_mobile_emulation, spec_desktop_pick, spec_mixed_pick, spec_mobile_pick,
};
use crate::headers::{HeaderMap, pairs_view};
use crate::rng::{XorShiftRng, xorshift_next};
use crate::text::lower_seq;

verus! {

/// The headers `additions` lays over `base`, later entries winning, each
/// name lower-cased: the merge-extend rule of the bulk header builder.
pub open spec fn merged_headers(
    base: Map<Seq<char>, Seq<char>>,
    additions: Seq<(Seq<char>, Seq<char>)>,
) -> Map<Seq<char>, Seq<char>>
    decreases additions.len(),
{
    if additions.len() == 0 {
        base
    } else {
        merged_headers(base, additions.drop_last()).insert(
            lower_seq(additions.last().0),
            additions.last().1,
        )
    }
}

/// Whether a builder step obliges the caller to rebuild the underlying
/// transport client or may go on sharing the previous one.
#[derive(Clone, Copy, PartialEq, Eq, Structural, Debug)]
pub enum TransportDecision {
    Rebuild,
    Share,
}

/// An immutable client configuration.  Every builder call copies: the
/// receiver stays valid and unchanged, so clones may be shared freely.
pub struct ClientConfig {
    headers: HeaderMap,
    follow_redirects: bool,
    proxy: Option<String>,
    timeout_ms: Option<u64>,
    profile: Profile,
}

impl ClientConfig {
    /// The default headers as a map from lower-cased names to values.
    pub closed spec fn spec_header_map(&self) -> Map<Seq<char>, Seq<char>> {
        self.headers.as_map()
    }

    /// Whether requests follow redirects.
    pub closed spec fn spec_follow(&self) -> bool {
        self.follow_redirects
    }

    /// The proxy URL, if one is configured.
    pub closed spec fn spec_proxy(&self) -> Option<Seq<char>> {
        match self.proxy {
            Some(ref p) => Some(p@),
            None => None,
        }
    }

    /// The per-request timeout in milliseconds, if one is configured.
    pub closed spec fn spec_timeout_ms(&self) -> Option<u64> {
        self.timeout_ms
    }

    /// The emulated browser identity.
    pub closed spec fn spec_profile(&self) -> Profile {
        self.profile
    }

    /// The header store is well-formed.
    pub closed spec fn wf(&self) -> bool {
        self.headers.wf()
    }

    /// All fields other than the headers agree with `other`'s.
    pub open spec fn same_but_headers(&self, other: &Self) -> bool {
        &&& self.spec_follow() == other.spec_follow()
        &&& self.spec_proxy() == other.spec_proxy()
        &&& self.spec_timeout_ms() == other.spec_timeout_ms()
        &&& self.spec_profile() == other.spec_profile()
    }

    /// A fresh configuration: the given identity, no headers, redirects
    /// followed, no proxy, no timeout.
    fn fresh(profile: Profile) -> (r: Self)
        ensures
            r.wf(),
            r.spec_header_map() == Map::<Seq<char>, Seq<char>>::empty(),
            r.spec_follow() == true,
            r.spec_proxy() is None,
            r.spec_timeout_ms() is None,
            r.spec_profile() == profile,
    {
        ClientConfig {
            headers: HeaderMap::new(),
            follow_redirects: true,
            proxy: None,
            timeout_ms: None,
            profile,
        }
    }

    /// The default factory: a mixed-bias identity draw.
    pub fn new(rng: &mut XorShiftRng) -> (r: Self)
        requires
            old(rng).wf(),
        ensures
            final(rng).wf(),
            final(rng)@ == xorshift_next(xorshift_next(old(rng)@)),
            r.wf(),
            r.spec_header_map() == Map::<Seq<char>, Seq<char>>::empty(),
            r.spec_follow() == true,
            r.spec_proxy() is None,
            r.spec_timeout_ms() is None,
            r.spec_profile() == spec_mixed_pick(old(rng)@, DESKTOP_BIAS_PERCENT),
    {
        let profile = get_random_emulation(rng);
        Self::fresh(profile)
    }

    /// A desktop-only identity draw.
    pub fn new_desktop(rng: &mut XorShiftRng) -> (r: Self)
        requires
            old(rng).wf(),
        ensures
            final(rng).wf(),
            final(rng)@ == xorshift_next(old(rng)@),
            r.wf(),
            r.spec_header_map() == Map::<Seq<char>, Seq<char>>::empty(),
            r.spec_follow() == true,
            r.spec_proxy() is None,
            r.spec_timeout_ms() is None,
            r.spec_profile() == spec_desktop_pick(old(rng)@),
    {
        let profile = get_random_desktop_emulation(rng);
        Self::fresh(profile)
    }

    /// A mobile-only identity draw.
    pub fn new_mobile(rng: &mut XorShiftRng) -> (r: Self)
        requires
            old(rng).wf(),
        ensures
            final(rng).wf(),
            final(rng)@ == xorshift_next(old(rng)@),
            r.wf(),
            r.spec_header_map() == Map::<Seq<char>, Seq<char>>::empty(),
            r.spec_follow() == true,
            r.spec_proxy() is None,
            r.spec_timeout_ms() is None,
            r.spec_profile() == spec_mobile_pick(old(rng)@),
    {
        let profile = get_random_mobile_emulation(rng);
        Self::fresh(profile)
    }

    /// A copy with one header set; the name is stored lower-cased and
    /// overwrites any earlier value under the same name.
    pub fn with_header(&self, name: &str, value: String) -> (r: Self)
        requires
            self.wf(),
        ensures
            r.wf(),
            r.spec_header_map() == self.spec_header_map().insert(lower_seq(name@), value@),
            r.same_but_headers(self),
    {
        let mut headers = self.headers.duplicate();
        headers.insert(name, value);
        ClientConfig {
            headers,
            follow_redirects: self.follow_redirects,
            proxy: clone_opt_string(&self.proxy),
            timeout_ms: self.timeout_ms,
            profile: self.profile,
        }
    }

    /// A copy with the given headers merged over the present ones, names
    /// lower-cased, overlapping names overwritten, the rest kept.
    pub fn with_headers(&self, additions: &Vec<(String, String)>) -> (r: Self)
        requires
            self.wf(),
        ensures
            r.wf(),
            r.spec_header_map() == merged_headers(self.spec_header_map(), pairs_view(additions@)),
            r.same_but_headers(self),
    {
        let mut headers = self.headers.duplicate();
        let mut k: usize = 0;
        while k < additions.len()
            invariant
                k <= additions@.len(),
                headers.wf(),
                headers.as_map() == merged_headers(
                    self.spec_header_map(),
                    pairs_view(additions@).take(k as int),
                ),
            decreases additions@.len() - k,
        {
            let e = &additions[k];
            headers.insert(e.0.as_str(), e.1.clone());
            proof {
                assert(pairs_view(additions@).take(k as int + 1).drop_last() =~= pairs_view(
                    additions@,
                ).take(k as int));
                assert(pairs_view(additions@).take(k as int + 1).last() == (e.0@, e.1@));
            }
            k = k + 1;
        }
        proof {
            assert(pairs_view(additions@).take(additions@.len() as int) =~= pairs_view(
                additions@,
            ));
        }
        ClientConfig {
            headers,
            follow_redirects: self.follow_redirects,
            proxy: clone_opt_string(&self.proxy),
            timeout_ms: self.timeout_ms,
            profile: self.profile,
        }
    }

    /// A copy bound to a proxy, with a freshly drawn identity; the caller
    /// must rebuild the transport client for it.
    pub fn with_proxy(&self, proxy: String, rng: &mut XorShiftRng) -> (r: Self)
        requires
            self.wf(),
            old(rng).wf(),
        ensures
            final(rng).wf(),
            final(rng)@ == xorshift_next(xorshift_next(old(rng)@)),
            r.wf(),
            r.spec_header_map() == self.spec_header_map(),
            r.spec_follow() == self.spec_follow(),
            r.spec_proxy() == Some(proxy@),
            r.spec_timeout_ms() == self.spec_timeout_ms(),
            r.spec_profile() == spec_mixed_pick(old(rng)@, DESKTOP_BIAS_PERCENT),
    {
        let profile = get_random_emulation(rng);
        ClientConfig {
            headers: self.headers.duplicate(),
            follow_redirects: self.follow_redirects,
            proxy: Some(proxy),
            timeout_ms: self.timeout_ms,
            profile,
        }
    }

    /// A copy with the redirect-follow flag set as given.
    pub fn follow(&self, follow: bool) -> (r: Self)
        requires
            self.wf(),
        ensures
            r.wf(),
            r.spec_header_map() == self.spec_header_map(),
            r.spec_follow() == follow,
            r.spec_proxy() == self.spec_proxy(),
            r.spec_timeout_ms() == self.spec_timeout_ms(),
            r.spec_profile() == self.spec_profile(),
    {
        ClientConfig {
            headers: self.headers.duplicate(),
            follow_redirects: follow,
            proxy: clone_opt_string(&self.proxy),
            timeout_ms: self.timeout_ms,
            profile: self.profile,
        }
    }

    /// A copy with a per-request timeout, in milliseconds.
    pub fn with_timeout(&self, timeout_ms: u64) -> (r: Self)
        requires
            self.wf(),
        ensures
            r.wf(),
            r.spec_header_map() == self.spec_header_map(),
            r.spec_follow() == self.spec_follow(),
            r.spec_proxy() == self.spec_proxy(),
            r.spec_timeout_ms() == Some(timeout_ms),
            r.spec_profile() == self.spec_profile(),
    {
        ClientConfig {
            headers: self.headers.duplicate(),
            follow_redirects: self.follow_redirects,
            proxy: clone_opt_string(&self.proxy),
            timeout_ms: Some(timeout_ms),
            profile: self.profile,
        }
    }

    /// An independent copy of the header store.
    pub fn header_map(&self) -> (r: HeaderMap)
        requires
            self.wf(),
        ensures
            r.wf(),
            r.as_map() == self.spec_header_map(),
    {
        self.headers.duplicate()
    }

    /// The value stored under `name`, compared case-insensitively.
    pub fn get_header(&self, name: &str) -> (r: Option<&String>)
        requires
            self.wf(),
        ensures
            match r {
                Some(v) => self.spec_header_map().contains_key(lower_seq(name@)) && v@
                    == self.spec_header_map()[lower_seq(name@)],
                None => !self.spec_header_map().contains_key(lower_seq(name@)),
            },
    {
        self.headers.get(name)
    }

    /// The stored header pairs, cloned, in storage order.
    pub fn header_pairs(&self) -> (r: Vec<(String, String)>)
        requires
            self.wf(),
        ensures
            forall|i: int|
                0 <= i < r@.len() ==> self.spec_header_map().contains_key(
                    (#[trigger] r@[i]).0@,
                ) && self.spec_header_map()[r@[i].0@] == r@[i].1@,
    {
        proof {
            crate::headers::lemma_entries_in_map(&self.headers);
        }
        self.headers.pairs()
    }

    /// Whether requests follow redirects.
    pub fn follows_redirects(&self) -> (r: bool)
        ensures
            r == self.spec_follow(),
    {
        self.follow_redirects
    }

    /// The proxy URL, cloned, if one is configured.
    pub fn proxy(&self) -> (r: Option<String>)
        ensures
            match r {
                Some(p) => self.spec_proxy() == Some(p@),
                None => self.spec_proxy() is None,
            },
    {
        clone_opt_string(&self.proxy)
    }

    /// The configured timeout in milliseconds, if any.
    pub fn timeout_ms(&self) -> (r: Option<u64>)
        ensures
            r == self.spec_timeout_ms(),
    {
        self.timeout_ms
    }

    /// The emulated browser identity.
    pub fn profile(&self) -> (r: Profile)
        ensures
            r == self.spec_profile(),
    {
        self.profile
    }

    /// A copy of this configuration.
    pub fn duplicate(&self) -> (r: Self)
        requires
            self.wf(),
        ensures
            r.wf(),
            r.spec_header_map() == self.spec_header_map(),
            r.same_but_headers(self),
    {
        ClientConfig {
            headers: self.headers.duplicate(),
            follow_redirects: self.follow_redirects,
            proxy: clone_opt_string(&self.proxy),
            timeout_ms: self.timeout_ms,
            profile: self.profile,
        }
    }
}

/// Setting two headers whose names differ after case folding keeps both:
/// the later call never displaces the earlier name.  This is the header
/// store `cfg.with_header(n1, v1).with_header(n2, v2)` ends up with.
pub proof fn lemma_two_header_names_kept(
    cfg: &ClientConfig,
    n1: Seq<char>,
    v1: Seq<char>,
    n2: Seq<char>,
    v2: Seq<char>,
)
    requires
        lower_seq(n1) != lower_seq(n2),
    ensures
        ({
            let m = cfg.spec_header_map().insert(lower_seq(n1), v1).insert(lower_seq(n2), v2);
            &&& m.contains_key(lower_seq(n1))
            &&& m[lower_seq(n1)] == v1
            &&& m.contains_key(lower_seq(n2))
            &&& m[lower_seq(n2)] == v2
        }),
{
}

/// Setting the same header name twice keeps only the latest value: the
/// header store `cfg.with_header(n, v1).with_header(n, v2)` ends up with
/// is the one a single `cfg.with_header(n, v2)` produces.
pub proof fn lemma_same_header_name_overwritten(
    cfg: &ClientConfig,
    n: Seq<char>,
    v1: Seq<char>,
    v2: Seq<char>,
)
    ensures
        cfg.spec_header_map().insert(lower_seq(n), v1).insert(lower_seq(n), v2)
            == cfg.spec_header_map().insert(lower_seq(n), v2),
{
    assert(cfg.spec_header_map().insert(lower_seq(n), v1).insert(lower_seq(n), v2)
        =~= cfg.spec_header_map().insert(lower_seq(n), v2));
}

/// After a builder step from `prev` to `next`, the transport client must be
/// rebuilt exactly when the proxy or the emulated identity changed.
pub fn transport_decision(prev: &ClientConfig, next: &ClientConfig) -> (r: TransportDecision)
    ensures
        r == TransportDecision::Rebuild <==> (prev.spec_proxy() != next.spec_proxy()
            || prev.spec_profile() != next.spec_profile()),
{
    let proxies_equal = match (prev.proxy(), next.proxy()) {
        (Option::None, Option::None) => true,
        (Option::Some(a), Option::Some(b)) => a.eq(&b),
        _ => false,
    };
    if !proxies_equal || prev.profile() != next.profile() {
        TransportDecision::Rebuild
    } else {
        TransportDecision::Share
    }
}

/// A cloned copy of an optional string.
fn clone_opt_string(o: &Option<String>) -> (r: Option<String>)
    ensures
        match (o, &r) {
            (Option::Some(a), Option::Some(b)) => a@ == b@,
            (Option::None, Option::None) => true,
            _ => false,
        },
{
    match o {
        Some(s) => Some(s.clone()),
        None => None,
    }
}

} // verus!

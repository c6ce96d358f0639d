//! robots.txt gating. Evaluation of a robots body against a user-agent and a
//! URL is robotstxt's work and a pure function of the three texts; fetching a
//! body is the caller's. The checker keeps a per-host cache of fetched
//! bodies (or of the absence of one) and decides from the cache, asking the
//! caller to fetch when a host has no entry yet.
use vstd::prelude::*;

use crate::text::{opt_str_view, str_eq};
use crate::urls::{spec_url_domain, spec_url_scheme, url_domain, url_scheme};

verus! {

/// Whether robots rules in `body` allow `agent` to fetch `url`: what
/// `robotstxt::DefaultMatcher::one_agent_allowed_by_robots` computes. A pure
/// function of the three texts.
pub uninterp spec fn spec_robots_allowed(agent: Seq<char>, body: Seq<char>, url: Seq<char>) -> bool;

/// Relies on `robotstxt::DefaultMatcher::one_agent_allowed_by_robots`: the
/// verdict depends on the robots body, the user-agent and the URL alone.
#[verifier::external_body]
fn robots_eval(agent: &str, body: &str, url: &str) -> (r: bool)
    ensures
        r == spec_robots_allowed(agent@, body@, url@),
{
    let mut matcher = robotstxt::DefaultMatcher::default();
    matcher.one_agent_allowed_by_robots(body, agent, url)
}

/// A cached robots entry: the host, and its robots body or `None` when the
/// host has no usable robots.txt (admit-by-default).
pub type RobotsEntry = (String, Option<String>);

/// The cache, seen as host/body text pairs.
pub open spec fn cache_view(c: Seq<RobotsEntry>) -> Seq<(Seq<char>, Option<Seq<char>>)> {
    c.map_values(|e: RobotsEntry| (e.0@, opt_str_view(e.1)))
}

/// The first cache entry for `host`, if any.
pub open spec fn spec_cache_lookup(
    c: Seq<(Seq<char>, Option<Seq<char>>)>,
    host: Seq<char>,
) -> Option<Option<Seq<char>>>
    decreases c.len(),
{
    if c.len() == 0 {
        None
    } else if c.first().0 == host {
        Some(c.first().1)
    } else {
        spec_cache_lookup(c.drop_first(), host)
    }
}

/// The URL a host's robots rules are fetched from.
pub open spec fn spec_robots_url(scheme: Seq<char>, host: Seq<char>) -> Seq<char> {
    scheme + "://"@ + host + "/robots.txt"@
}

/// What the checker answers for a URL: a decision, or a request to fetch the
/// host's robots.txt first.
#[derive(Clone, Debug)]
pub enum RobotsDecision {
    /// The URL may be fetched.
    Allowed,
    /// robots rules forbid fetching the URL.
    Disallowed,
    /// The host has no cache entry: fetch `robots_url` and record the body
    /// for `host`, then ask again.
    NeedFetch { host: String, robots_url: String },
}

/// The meaning of a decision, over text values.
pub enum RobotsVerdict {
    Allow,
    Deny,
    Fetch { host: Seq<char>, robots_url: Seq<char> },
}

/// The decision over the cache text: URLs without a domain or scheme are
/// admitted; a cached body is evaluated; a cached absence admits; an uncached
/// host asks for a fetch.
pub open spec fn spec_robots_decision(
    agent: Seq<char>,
    cache: Seq<(Seq<char>, Option<Seq<char>>)>,
    url: Seq<char>,
) -> RobotsVerdict {
    match spec_url_domain(url) {
        None => RobotsVerdict::Allow,
        Some(host) => match spec_cache_lookup(cache, host) {
            Some(Some(body)) => if spec_robots_allowed(agent, body, url) {
                RobotsVerdict::Allow
            } else {
                RobotsVerdict::Deny
            },
            Some(None) => RobotsVerdict::Allow,
            None => match spec_url_scheme(url) {
                None => RobotsVerdict::Allow,
                Some(scheme) => RobotsVerdict::Fetch {
                    host,
                    robots_url: spec_robots_url(scheme, host),
                },
            },
        },
    }
}

/// Whether an exec decision carries the meaning of a verdict.
pub open spec fn decision_matches(d: RobotsDecision, s: RobotsVerdict) -> bool {
    match (d, s) {
        (RobotsDecision::Allowed, RobotsVerdict::Allow) => true,
        (RobotsDecision::Disallowed, RobotsVerdict::Deny) => true,
        (
            RobotsDecision::NeedFetch { host: h1, robots_url: u1 },
            RobotsVerdict::Fetch { host: h2, robots_url: u2 },
        ) => h1@ == h2 && u1@ == u2,
        _ => false,
    }
}

/// Per-host cached robots.txt rules for one crawl.
#[derive(Clone, Debug)]
pub struct RobotsChecker {
    /// The user-agent the rules are evaluated for.
    pub user_agent: String,
    /// Fetched robots bodies by host; `None` records a host without one.
    pub cache: Vec<RobotsEntry>,
}

impl RobotsChecker {
    /// A checker with an empty cache. (The original construction also took
    /// the request timeout; fetching, and with it the timeout, belongs to
    /// the caller.)
    pub fn new(user_agent: String) -> (c: Self)
        ensures
            c.user_agent@ == user_agent@,
            c.cache@.len() == 0,
    {
        RobotsChecker { user_agent, cache: Vec::new() }
    }

    /// Decides a URL from the cache, or asks for the host's robots.txt.
    pub fn check(&self, url: &str) -> (r: RobotsDecision)
        ensures
            decision_matches(r, spec_robots_decision(self.user_agent@, cache_view(self.cache@), url@)),
    {
        let host = match url_domain(url) {
            Some(h) => h,
            None => {
                return RobotsDecision::Allowed;
            },
        };
        match self.lookup(host.as_str()) {
            Some(Some(body)) => {
                if robots_eval(self.user_agent.as_str(), body.as_str(), url) {
                    RobotsDecision::Allowed
                } else {
                    RobotsDecision::Disallowed
                }
            },
            Some(None) => RobotsDecision::Allowed,
            None => {
                match url_scheme(url) {
                    None => RobotsDecision::Allowed,
                    Some(scheme) => {
                        let mut robots_url = scheme;
                        robots_url.append("://");
                        robots_url.append(host.as_str());
                        robots_url.append("/robots.txt");
                        RobotsDecision::NeedFetch { host, robots_url }
                    },
                }
            },
        }
    }

    /// The first cached entry for `host`, if any, with the body cloned out.
    fn lookup(&self, host: &str) -> (r: Option<Option<String>>)
        ensures
            match r {
                Some(b) => spec_cache_lookup(cache_view(self.cache@), host@) == Some(
                    opt_str_view(b),
                ),
                None => spec_cache_lookup(cache_view(self.cache@), host@) is None,
            },
    {
        let mut i: usize = 0;
        proof {
            assert(cache_view(self.cache@).skip(0) =~= cache_view(self.cache@));
        }
        while i < self.cache.len()
            invariant
                i <= self.cache.len(),
                self.cache@.len() == cache_view(self.cache@).len(),
                spec_cache_lookup(cache_view(self.cache@), host@) == spec_cache_lookup(
                    cache_view(self.cache@).skip(i as int),
                    host@,
                ),
            decreases self.cache.len() - i,
        {
            proof {
                let cv = cache_view(self.cache@);
                assert(cv.skip(i as int).first() == cv[i as int]);
                assert(cv.skip(i as int).drop_first() =~= cv.skip(i + 1));
            }
            if str_eq(self.cache[i].0.as_str(), host) {
                let body = match &self.cache[i].1 {
                    Some(b) => Some(String::from_str(b.as_str())),
                    None => None,
                };
                return Some(body);
            }
            i = i + 1;
        }
        proof {
            assert(cache_view(self.cache@).skip(self.cache@.len() as int)
                =~= Seq::<(Seq<char>, Option<Seq<char>>)>::empty());
        }
        None
    }

    /// Records a fetched robots body (or its absence) for a host. The new
    /// entry takes effect for later lookups of that host; other hosts keep
    /// their entries.
    pub fn record(&mut self, host: String, body: Option<String>)
        ensures
            final(self).user_agent == old(self).user_agent,
            cache_view(final(self).cache@) == seq![(host@, opt_str_view(body))] + cache_view(
                old(self).cache@,
            ),
            spec_cache_lookup(cache_view(final(self).cache@), host@) == Some(opt_str_view(body)),
            forall|h: Seq<char>|
                h != host@ ==> spec_cache_lookup(cache_view(final(self).cache@), h)
                    == spec_cache_lookup(cache_view(old(self).cache@), h),
    {
        let ghost oldcv = cache_view(self.cache@);
        self.cache.insert(0, (host, body));
        proof {
            let cv = cache_view(self.cache@);
            assert(cv =~= seq![(cv.first().0, cv.first().1)] + oldcv);
            assert(cv.drop_first() =~= oldcv);
        }
    }
}

} // verus!

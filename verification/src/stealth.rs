//! Stealth measures for polite-but-unblocked crawling: a user-agent pool
//! with optional rotation, browser-like request headers, and an optional
//! random delay. Randomness comes through one rand wrapper that promises
//! only the range of its draw; every decision around it is verified.
use vstd::prelude::*;

use crate::text::{clone_string, clone_strings};

verus! {

/// Relies on `rand::thread_rng` and `Rng::gen_range`: a draw in
/// `lo..hi`. Which value comes back is chance, so only the range is
/// promised.
#[verifier::external_body]
fn rand_range(lo: u64, hi: u64) -> (r: u64)
    requires
        lo < hi,
    ensures
        lo <= r < hi,
{
    rand::Rng::gen_range(&mut rand::thread_rng(), lo..hi)
}

/// Stealth configuration.
#[derive(Debug, Clone)]
pub struct StealthConfig {
    /// Rotate among the user agents.
    pub rotate_user_agent: bool,
    /// Delay requests by a random amount.
    pub random_delays: bool,
    /// Randomize the TLS fingerprint (left to the HTTP client).
    pub randomize_tls: bool,
    /// User agents to use in place of the built-in pool.
    pub custom_user_agents: Vec<String>,
}

impl Default for StealthConfig {
    /// Rotation on, delays and TLS randomization off, the built-in pool.
    fn default() -> (c: Self)
        ensures
            c.rotate_user_agent,
            !c.random_delays,
            !c.randomize_tls,
            c.custom_user_agents@.len() == 0,
    {
        StealthConfig {
            rotate_user_agent: true,
            random_delays: false,
            randomize_tls: false,
            custom_user_agents: Vec::new(),
        }
    }
}

/// Applies stealth measures to outgoing requests.
pub struct DefaultStealthService {
    /// The configuration the service was built with.
    pub config: StealthConfig,
    /// The user-agent pool in use.
    pub user_agents: Vec<String>,
}

impl DefaultStealthService {
    /// A service with the stock configuration.
    pub fn new() -> (s: Self)
        ensures
            s.user_agents@.len() == 8,
            s.config.rotate_user_agent,
            !s.config.random_delays,
    {
        DefaultStealthService::with_config(StealthConfig::default())
    }

    /// A service with the given configuration: the custom user agents when
    /// any are given, the built-in pool otherwise.
    pub fn with_config(config: StealthConfig) -> (s: Self)
        ensures
            s.config == config,
            config.custom_user_agents@.len() == 0 ==> s.user_agents@.len() == 8,
            config.custom_user_agents@.len() > 0 ==> s.user_agents.deep_view()
                == config.custom_user_agents.deep_view(),
            s.user_agents@.len() >= 1,
    {
        let user_agents = if config.custom_user_agents.len() == 0 {
            DefaultStealthService::default_user_agents()
        } else {
            clone_strings(&config.custom_user_agents)
        };
        DefaultStealthService { config, user_agents }
    }

    /// The built-in pool: current desktop Chrome, Firefox, Safari and Edge
    /// identities across the major platforms.
    pub fn default_user_agents() -> (r: Vec<String>)
        ensures
            r@.len() == 8,
    {
        let mut v: Vec<String> = Vec::new();
        v.push(
            String::from_str(
                "Mozilla/5.0 (Windows NT 10.0; Win64; x64) AppleWebKit/537.36 (KHTML, like Gecko) Chrome/120.0.0.0 Safari/537.36",
            ),
        );
        v.push(
            String::from_str(
                "Mozilla/5.0 (Macintosh; Intel Mac OS X 10_15_7) AppleWebKit/537.36 (KHTML, like Gecko) Chrome/120.0.0.0 Safari/537.36",
            ),
        );
        v.push(
            String::from_str(
                "Mozilla/5.0 (Windows NT 10.0; Win64; x64; rv:121.0) Gecko/20100101 Firefox/121.0",
            ),
        );
        v.push(
            String::from_str(
                "Mozilla/5.0 (Macintosh; Intel Mac OS X 10.15; rv:121.0) Gecko/20100101 Firefox/121.0",
            ),
        );
        v.push(
            String::from_str(
                "Mozilla/5.0 (Macintosh; Intel Mac OS X 10_15_7) AppleWebKit/605.1.15 (KHTML, like Gecko) Version/17.1 Safari/605.1.15",
            ),
        );
        v.push(
            String::from_str(
                "Mozilla/5.0 (Windows NT 10.0; Win64; x64) AppleWebKit/537.36 (KHTML, like Gecko) Chrome/120.0.0.0 Safari/537.36 Edg/120.0.0.0",
            ),
        );
        v.push(
            String::from_str(
                "Mozilla/5.0 (X11; Linux x86_64) AppleWebKit/537.36 (KHTML, like Gecko) Chrome/120.0.0.0 Safari/537.36",
            ),
        );
        v.push(
            String::from_str(
                "Mozilla/5.0 (X11; Linux x86_64; rv:121.0) Gecko/20100101 Firefox/121.0",
            ),
        );
        v
    }

    /// One user agent from the pool: a random one under rotation, the first
    /// otherwise. Always one of the pool.
    pub fn get_user_agent(&self) -> (r: String)
        requires
            self.user_agents@.len() >= 1,
        ensures
            self.user_agents.deep_view().contains(r@),
    {
        if self.config.rotate_user_agent {
            let i = rand_range(0, self.user_agents.len() as u64) as usize;
            let ua = clone_string(&self.user_agents[i]);
            proof {
                assert(self.user_agents.deep_view()[i as int] == ua@);
            }
            ua
        } else {
            let ua = clone_string(&self.user_agents[0]);
            proof {
                assert(self.user_agents.deep_view()[0] == ua@);
            }
            ua
        }
    }

    /// A random delay between 100 and 500 milliseconds when delays are on,
    /// and zero otherwise.
    pub fn get_random_delay(&self) -> (r: u64)
        ensures
            self.config.random_delays ==> 100 <= r < 500,
            !self.config.random_delays ==> r == 0,
    {
        if self.config.random_delays {
            rand_range(100, 500)
        } else {
            0
        }
    }

    /// The stealth request headers, as name and value pairs: the chosen
    /// user agent, browser-like accept headers, and the fetch-metadata
    /// headers of an ordinary navigation. (Turning them into a client's
    /// header map is the HTTP layer's work.)
    pub fn header_pairs(&self) -> (r: Vec<(String, String)>)
        requires
            self.user_agents@.len() >= 1,
        ensures
            r@.len() == 8,
            r@[0].0@ == "User-Agent"@,
            self.user_agents.deep_view().contains(r@[0].1@),
            r@[1].0@ == "Accept"@,
            r@[2].0@ == "Accept-Language"@,
            r@[3].0@ == "Accept-Encoding"@,
            r@[4].0@ == "Sec-Fetch-Site"@ && r@[4].1@ == "same-origin"@,
            r@[5].0@ == "Sec-Fetch-Mode"@ && r@[5].1@ == "navigate"@,
            r@[6].0@ == "Sec-Fetch-Dest"@ && r@[6].1@ == "document"@,
            r@[7].0@ == "Sec-Fetch-User"@ && r@[7].1@ == "?1"@,
    {
        let mut r: Vec<(String, String)> = Vec::new();
        r.push((String::from_str("User-Agent"), self.get_user_agent()));
        r.push(
            (
                String::from_str("Accept"),
                String::from_str(
                    "text/html,application/xhtml+xml,application/xml;q=0.9,image/avif,image/webp,*/*;q=0.8",
                ),
            ),
        );
        r.push((String::from_str("Accept-Language"), String::from_str("en-US,en;q=0.9")));
        r.push((String::from_str("Accept-Encoding"), String::from_str("gzip, deflate, br")));
        r.push((String::from_str("Sec-Fetch-Site"), String::from_str("same-origin")));
        r.push((String::from_str("Sec-Fetch-Mode"), String::from_str("navigate")));
        r.push((String::from_str("Sec-Fetch-Dest"), String::from_str("document")));
        r.push((String::from_str("Sec-Fetch-User"), String::from_str("?1")));
        r
    }
}

} // verus!

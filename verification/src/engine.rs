//! The crawl engine: one shared state that seeds a FIFO queue of jobs, admits
//! every URL through the pipeline (visited set, domain scope, pattern filter,
//! robots rules), counts work with the active-jobs discipline, and records
//! page results. Fetching pages, fetching robots bodies and waiting on the
//! rate gate are the caller's: the caller takes a job, performs the fetch,
//! and hands the outcome back. Every transition here is verified against the
//! engine invariant.
//!
//! The active-jobs counter follows the before-enqueue / on-dequeue
//! discipline: it is raised before a job enters the queue and lowered the
//! moment one is taken, so in this sequential core it always equals the
//! queue length, and zero means the queue is drained. Jobs taken for
//! fetching are counted separately in `in_flight`, and links awaiting a
//! robots body in `pending`; quiescence is all three at zero.
use vstd::prelude::*;

use crate::config::CrawlerConfig;
use crate::filters::{spec_should_crawl, UrlFilter};
use crate::html::{spec_hrefs, spec_page_title, spec_resolved_links, HtmlParser};
use crate::rate_limiter::spec_per_minute;
use crate::robots::{cache_view, spec_robots_decision, RobotsChecker, RobotsDecision, RobotsVerdict};
use crate::text::{clone_string, clone_strings, contains_str, host_in_scope, spec_host_in_scope};
use crate::types::{result_urls, CrawlJob, CrawlResults, CrawlStats, PageResult};
use crate::urls::{spec_url_domain, url_domain};

verus! {

/// The URLs of the queued jobs, in order.
pub open spec fn queue_urls(q: Seq<CrawlJob>) -> Seq<Seq<char>> {
    q.map_values(|j: CrawlJob| j.url@)
}

/// No two entries are equal.
pub open spec fn seq_no_dup(s: Seq<Seq<char>>) -> bool {
    forall|i: int, j: int| 0 <= i < j < s.len() ==> s[i] != s[j]
}

/// `x + 1`, capped at the largest counter value.
pub open spec fn sat_add1(x: usize) -> usize {
    if x == usize::MAX {
        x
    } else {
        (x + 1) as usize
    }
}

/// Increments a counter, capping at its largest value.
fn sat_inc(x: usize) -> (r: usize)
    ensures
        r == sat_add1(x),
{
    if x == usize::MAX {
        x
    } else {
        x + 1
    }
}

/// What taking a job from the queue yields.
#[derive(Debug)]
pub enum JobOutcome {
    /// The queue is empty; nothing was taken.
    QueueEmpty,
    /// The taken job's URL was already visited; nothing more to do.
    AlreadyVisited,
    /// The URL is outside the allowed domain; it was counted and recorded as
    /// visited, and no fetch happens.
    External { url: String },
    /// The URL was admitted: fetch it and hand the outcome to `record_page`
    /// or `record_error`.
    Fetch { url: String, depth: usize },
}

/// A link that passed the visited and pattern checks but awaits the robots
/// body of its host.
#[derive(Clone, Debug)]
pub struct PendingLink {
    /// The link itself.
    pub url: String,
    /// The depth it would be enqueued at.
    pub depth: usize,
    /// The page the link was found on.
    pub parent: String,
    /// The host whose robots body is missing.
    pub host: String,
    /// Where that body is fetched from.
    pub robots_url: String,
}

/// A pending link, over text values.
pub struct PendView {
    pub url: Seq<char>,
    pub depth: nat,
    pub parent: Seq<char>,
    pub host: Seq<char>,
    pub robots_url: Seq<char>,
}

/// Pending links, over text values.
pub open spec fn pending_views(s: Seq<PendingLink>) -> Seq<PendView> {
    s.map_values(
        |p: PendingLink|
            PendView {
                url: p.url@,
                depth: p.depth as nat,
                parent: p.parent@,
                host: p.host@,
                robots_url: p.robots_url@,
            },
    )
}

/// Why the engine cannot be built.
#[derive(Debug, PartialEq, Eq, Structural, Clone, Copy)]
pub enum EngineError {
    /// The worker count is zero.
    NoWorkers,
    /// The rate limit amounts to less than one request per minute.
    RateTooLow,
}

impl EngineError {
    /// A short description of the error.
    pub fn message(&self) -> (r: &'static str)
        ensures
            r@ == (match self {
                EngineError::NoWorkers => "max_workers must be at least 1"@,
                EngineError::RateTooLow => "rate_limit must be at least one request per minute"@,
            }),
    {
        match self {
            EngineError::NoWorkers => "max_workers must be at least 1",
            EngineError::RateTooLow => "rate_limit must be at least one request per minute",
        }
    }
}

/// Everything the admission of one link depends on.
pub struct AdmitCtx {
    pub respect_robots: bool,
    pub exclude: Seq<Seq<char>>,
    pub includes: Seq<Seq<char>>,
    pub agent: Seq<char>,
    pub cache: Seq<(Seq<char>, Option<Seq<char>>)>,
    pub visited: Seq<Seq<char>>,
}

/// What the pipeline does with one link.
pub enum LinkAdmit {
    /// Already visited: dropped silently.
    Skip,
    /// Rejected by the pattern filter or by robots rules: counted excluded.
    Excluded,
    /// Admitted: enqueued one deeper than its parent.
    Enqueue,
    /// Needs the robots body of `host` before it can be decided.
    Pend { host: Seq<char>, robots_url: Seq<char> },
}

/// The admission pipeline for one discovered link, in order: visited set,
/// pattern filter, then robots rules when they are respected.
pub open spec fn spec_admit_link(ctx: AdmitCtx, link: Seq<char>) -> LinkAdmit {
    if ctx.visited.contains(link) {
        LinkAdmit::Skip
    } else if !spec_should_crawl(ctx.exclude, ctx.includes, link) {
        LinkAdmit::Excluded
    } else if !ctx.respect_robots {
        LinkAdmit::Enqueue
    } else {
        match spec_robots_decision(ctx.agent, ctx.cache, link) {
            RobotsVerdict::Allow => LinkAdmit::Enqueue,
            RobotsVerdict::Deny => LinkAdmit::Excluded,
            RobotsVerdict::Fetch { host, robots_url } => LinkAdmit::Pend { host, robots_url },
        }
    }
}

/// The links of `ls` that the pipeline admits, in order.
pub open spec fn spec_enqueued_urls(ctx: AdmitCtx, ls: Seq<Seq<char>>) -> Seq<Seq<char>>
    decreases ls.len(),
{
    if ls.len() == 0 {
        Seq::empty()
    } else {
        spec_enqueued_urls(ctx, ls.drop_last()) + (if spec_admit_link(ctx, ls.last())
            is Enqueue {
            seq![ls.last()]
        } else {
            Seq::empty()
        })
    }
}

/// The excluded-links counter after the pipeline has seen `ls`, starting
/// from `x0`.
pub open spec fn spec_excluded_after(ctx: AdmitCtx, ls: Seq<Seq<char>>, x0: usize) -> usize
    decreases ls.len(),
{
    if ls.len() == 0 {
        x0
    } else {
        if spec_admit_link(ctx, ls.last()) is Excluded {
            sat_add1(spec_excluded_after(ctx, ls.drop_last(), x0))
        } else {
            spec_excluded_after(ctx, ls.drop_last(), x0)
        }
    }
}

/// The links of `ls` that await a robots body, with their fetch targets.
pub open spec fn spec_pending_of(
    ctx: AdmitCtx,
    ls: Seq<Seq<char>>,
    parent: Seq<char>,
    child_depth: nat,
) -> Seq<PendView>
    decreases ls.len(),
{
    if ls.len() == 0 {
        Seq::empty()
    } else {
        spec_pending_of(ctx, ls.drop_last(), parent, child_depth) + (match spec_admit_link(
            ctx,
            ls.last(),
        ) {
            LinkAdmit::Pend { host, robots_url } => seq![
                PendView { url: ls.last(), depth: child_depth, parent, host, robots_url },
            ],
            _ => Seq::empty(),
        })
    }
}

/// The concurrent crawl engine's shared state, as one sequential object.
pub struct CrawlEngine {
    /// The crawl's configuration.
    pub config: CrawlerConfig,
    /// Pattern filter built from the configured pattern sources.
    pub url_filter: UrlFilter,
    /// Per-host robots rules cache.
    pub robots: RobotsChecker,
    /// Title and link extraction.
    pub parser: HtmlParser,
    /// FIFO queue of jobs.
    pub queue: Vec<CrawlJob>,
    /// Every URL admitted by the pipeline, exactly once.
    pub visited: Vec<String>,
    /// One entry per successfully crawled page.
    pub results: Vec<PageResult>,
    /// Counters and timing.
    pub stats: CrawlStats,
    /// Jobs that exist: enqueued, lowered on dequeue, raised before enqueue.
    pub active_jobs: usize,
    /// Jobs taken for fetching whose outcome is not recorded yet.
    pub in_flight: usize,
    /// Links awaiting a robots body.
    pub pending: Vec<PendingLink>,
    /// Set once the crawl has terminated.
    pub shutdown: bool,
    /// Every URL ever enqueued.
    pub enqueued: Ghost<Set<Seq<char>>>,
    /// The URLs the seeding stage enqueued.
    pub seeds: Ghost<Set<Seq<char>>>,
    /// For each worker-enqueued URL, the page it was discovered on.
    pub parent_of: Ghost<Map<Seq<char>, Seq<char>>>,
    /// Enqueue order rank: parents rank strictly below their children.
    pub rank: Ghost<Map<Seq<char>, nat>>,
}

impl CrawlEngine {
    /// Everything one link admission depends on, in the current state.
    pub open spec fn admit_ctx(&self) -> AdmitCtx {
        AdmitCtx {
            respect_robots: self.config.respect_robots_txt,
            exclude: self.url_filter.exclude_patterns.deep_view(),
            includes: self.url_filter.include_patterns.deep_view(),
            agent: self.robots.user_agent@,
            cache: cache_view(self.robots.cache@),
            visited: self.visited.deep_view(),
        }
    }

    /// The engine invariant. It ties the counters to the collections, keeps
    /// the visited set and the result list duplicate-free, bounds every
    /// recorded depth, and carries the provenance of every enqueued URL.
    pub open spec fn inv(&self) -> bool {
        let vv = self.visited.deep_view();
        let qs = self.queue@;
        let rs = self.results@;
        let enq = self.enqueued@;
        &&& seq_no_dup(vv)
        &&& vv.len() == self.visited@.len()
        &&& forall|i: int| 0 <= i < rs.len() ==> vv.contains(#[trigger] rs[i].url@)
        &&& forall|i: int, j: int| 0 <= i < j < rs.len() ==> rs[i].url@ != rs[j].url@
        &&& forall|i: int| 0 <= i < rs.len() ==> (#[trigger] rs[i].depth) <= self.config.max_depth
        &&& self.stats.pages_found == vv.len()
        &&& self.stats.pages_crawled == rs.len()
        &&& self.stats.pages_crawled + self.stats.errors + self.stats.external_links
            + self.in_flight == self.stats.pages_found
        &&& self.active_jobs == qs.len()
        &&& forall|i: int|
            0 <= i < qs.len() ==> enq.contains(#[trigger] qs[i].url@) && qs[i].depth
                <= self.config.max_depth
        &&& forall|u: Seq<char>|
            #[trigger] enq.contains(u) ==> vv.contains(u) || queue_urls(qs).contains(u)
        &&& forall|i: int| 0 <= i < vv.len() ==> enq.contains(#[trigger] vv[i])
        &&& forall|u: Seq<char>| #[trigger] self.seeds@.contains(u) ==> enq.contains(u)
        &&& forall|u: Seq<char>| #[trigger] enq.contains(u) ==> self.rank@.dom().contains(u)
        &&& forall|u: Seq<char>|
            #[trigger] enq.contains(u) && !self.seeds@.contains(u) ==> {
                &&& self.parent_of@.dom().contains(u)
                &&& enq.contains(self.parent_of@[u])
                &&& self.rank@.dom().contains(self.parent_of@[u])
                &&& self.rank@[self.parent_of@[u]] < self.rank@[u]
            }
        &&& forall|i: int|
            0 <= i < self.pending@.len() ==> vv.contains(#[trigger] self.pending@[i].parent@)
                && self.pending@[i].depth <= self.config.max_depth
    }

    /// Builds an engine for a configuration. Fails exactly when the worker
    /// count is zero or the rate limit amounts to less than one request per
    /// minute: misconfigurations the crawl could not run with.
    pub fn new(config: CrawlerConfig) -> (r: Result<Self, EngineError>)
        ensures
            r is Ok <==> (config.max_workers >= 1 && spec_per_minute(config.rate_limit_milli) >= 1),
            r matches Ok(e) ==> {
                &&& e.inv()
                &&& e.config == config
                &&& e.queue@.len() == 0
                &&& e.visited@.len() == 0
                &&& e.results@.len() == 0
                &&& e.pending@.len() == 0
                &&& e.active_jobs == 0
                &&& e.in_flight == 0
                &&& !e.shutdown
                &&& e.stats.pages_found == 0 && e.stats.pages_crawled == 0 && e.stats.errors == 0
                    && e.stats.external_links == 0 && e.stats.excluded_links == 0
                &&& e.enqueued@ == Set::<Seq<char>>::empty()
                &&& e.seeds@ == Set::<Seq<char>>::empty()
                &&& e.url_filter.exclude_patterns.deep_view() == crate::filters::spec_keep_valid(
                    config.exclude_patterns.deep_view(),
                )
                &&& e.url_filter.include_patterns.deep_view() == crate::filters::spec_keep_valid(
                    config.include_patterns.deep_view(),
                )
                &&& e.robots.user_agent@ == "rcrawler/0.1.0"@
                &&& e.robots.cache@.len() == 0
            },
    {
        if config.max_workers < 1 {
            return Err(EngineError::NoWorkers);
        }
        if crate::rate_limiter::per_minute_quota(config.rate_limit_milli) < 1 {
            return Err(EngineError::RateTooLow);
        }
        let url_filter = UrlFilter::new(&config.exclude_patterns, &config.include_patterns);
        let robots = RobotsChecker::new(String::from_str("rcrawler/0.1.0"));
        let engine = CrawlEngine {
            config,
            url_filter,
            robots,
            parser: HtmlParser::new(),
            queue: Vec::new(),
            visited: Vec::new(),
            results: Vec::new(),
            stats: CrawlStats::new(),
            active_jobs: 0,
            in_flight: 0,
            pending: Vec::new(),
            shutdown: false,
            enqueued: Ghost(Set::empty()),
            seeds: Ghost(Set::empty()),
            parent_of: Ghost(Map::empty()),
            rank: Ghost(Map::empty()),
        };
        proof {
            assert(engine.visited.deep_view() =~= Seq::<Seq<char>>::empty());
        }
        Ok(engine)
    }

    /// Seeds the queue with the base URL at depth zero. Raises the
    /// active-jobs counter before the job enters the queue.
    #[verifier::rlimit(50)]
    pub fn seed_base(&mut self)
        requires
            old(self).inv(),
        ensures
            final(self).inv(),
            final(self).config == old(self).config,
            final(self).visited == old(self).visited,
            final(self).results == old(self).results,
            final(self).stats == old(self).stats,
            final(self).pending == old(self).pending,
            final(self).in_flight == old(self).in_flight,
            final(self).shutdown == old(self).shutdown,
            final(self).queue@.len() == old(self).queue@.len() + 1,
            final(self).queue@.last().url@ == final(self).config.base_url@,
            final(self).queue@.last().depth == 0,
            final(self).queue@.drop_last() == old(self).queue@,
            final(self).enqueued@ == old(self).enqueued@.insert(final(self).config.base_url@),
            final(self).seeds@ == old(self).seeds@.insert(final(self).config.base_url@),
    {
        let url = clone_string(&self.config.base_url);
        let ghost u = url@;
        let ghost oldq = self.queue@;
        self.queue.push(CrawlJob { url, depth: 0 });
        self.active_jobs = self.queue.len();
        proof {
            self.enqueued@ = self.enqueued@.insert(u);
            self.seeds@ = self.seeds@.insert(u);
            if !self.rank@.dom().contains(u) {
                self.rank@ = self.rank@.insert(u, 0);
            }
            lemma_enqueue_step(
                old(self).enqueued@,
                self.enqueued@,
                self.visited.deep_view(),
                oldq,
                self.queue@,
                u,
            );
            assert(self.queue@.drop_last() =~= old(self).queue@);
            assert forall|k: int| 0 <= k < self.queue@.len() implies (#[trigger] self.queue@[
                k
            ].depth) <= self.config.max_depth by {
                if k < oldq.len() {
                    assert(self.queue@[k] == oldq[k]);
                    assert(old(self).queue@[k].url@ == oldq[k].url@);
                }
            }
            assert forall|k: int| 0 <= k < self.pending@.len() implies self.visited.deep_view()
                .contains(#[trigger] self.pending@[k].parent@) by {
                assert(old(self).visited.deep_view().contains(old(self).pending@[k].parent@));
            }
            lemma_inv_parts(self);
        }
    }

    /// Seeds the queue from a sitemap URL list at depth one, skipping URLs
    /// already visited; every seeded URL counts as a seed for provenance.
    /// With an empty list, or with a depth cap of zero (under which
    /// depth-one jobs could not be fetched), the engine falls back to the
    /// base URL. Returns whether the sitemap list was used.
    #[verifier::rlimit(50)]
    pub fn seed_sitemap(&mut self, urls: &Vec<String>) -> (used: bool)
        requires
            old(self).inv(),
        ensures
            final(self).inv(),
            final(self).config == old(self).config,
            final(self).visited == old(self).visited,
            final(self).results == old(self).results,
            final(self).stats == old(self).stats,
            final(self).pending == old(self).pending,
            final(self).in_flight == old(self).in_flight,
            final(self).shutdown == old(self).shutdown,
            used == (urls@.len() > 0 && old(self).config.max_depth >= 1),
            !used ==> final(self).queue@.len() == old(self).queue@.len() + 1 && final(self).queue@.last().url@
                == final(self).config.base_url@ && final(self).queue@.last().depth == 0,
            used ==> {
                &&& queue_urls(final(self).queue@) == queue_urls(old(self).queue@) + spec_new_seeds(
                    urls.deep_view(),
                    old(self).visited.deep_view(),
                )
                &&& forall|i: int|
                    old(self).queue@.len() <= i < final(self).queue@.len()
                        ==> (#[trigger] final(self).queue@[i].depth) == 1
            },
    {
        if urls.len() == 0 || self.config.max_depth == 0 {
            self.seed_base();
            return false;
        }
        let ghost uv = urls.deep_view();
        let ghost vv = self.visited.deep_view();
        let mut i: usize = 0;
        proof {
            assert(spec_new_seeds(uv.take(0), vv) =~= Seq::<Seq<char>>::empty());
            assert(queue_urls(self.queue@) =~= queue_urls(self.queue@) + spec_new_seeds(
                uv.take(0),
                vv,
            ));
        }
        while i < urls.len()
            invariant
                i <= urls.len(),
                uv == urls.deep_view(),
                uv.len() == urls@.len(),
                self.inv(),
                self.config == old(self).config,
                self.config.max_depth >= 1,
                self.visited == old(self).visited,
                vv == self.visited.deep_view(),
                self.results == old(self).results,
                self.stats == old(self).stats,
                self.pending == old(self).pending,
                self.in_flight == old(self).in_flight,
                self.shutdown == old(self).shutdown,
                queue_urls(self.queue@) == queue_urls(old(self).queue@) + spec_new_seeds(
                    uv.take(i as int),
                    vv,
                ),
                old(self).queue@.len() <= self.queue@.len(),
                forall|k: int|
                    0 <= k < old(self).queue@.len() ==> self.queue@[k] == old(self).queue@[k],
                forall|k: int|
                    old(self).queue@.len() <= k < self.queue@.len() ==> (#[trigger] self.queue@[
                        k
                    ].depth) == 1,
            decreases urls.len() - i,
        {
            proof {
                assert(uv.take(i + 1).drop_last() =~= uv.take(i as int));
                assert(uv.take(i + 1).last() == uv[i as int]);
                assert(uv[i as int] == urls@[i as int]@);
            }
            let seen = contains_str(&self.visited, urls[i].as_str());
            if !seen {
                let url = clone_string(&urls[i]);
                let ghost u = url@;
                let ghost prevq = self.queue@;
                let ghost prev_enq = self.enqueued@;
                self.queue.push(CrawlJob { url, depth: 1 });
                self.active_jobs = self.queue.len();
                proof {
                    self.enqueued@ = self.enqueued@.insert(u);
                    self.seeds@ = self.seeds@.insert(u);
                    if !self.rank@.dom().contains(u) {
                        self.rank@ = self.rank@.insert(u, 0);
                    }
                    lemma_enqueue_step(
                        prev_enq,
                        self.enqueued@,
                        self.visited.deep_view(),
                        prevq,
                        self.queue@,
                        u,
                    );
                    assert(spec_new_seeds(uv.take(i + 1), vv) =~= spec_new_seeds(
                        uv.take(i as int),
                        vv,
                    ).push(u));
                    assert(queue_urls(self.queue@) =~= queue_urls(old(self).queue@)
                        + spec_new_seeds(uv.take(i + 1), vv));
                    assert forall|k: int| 0 <= k < self.queue@.len() implies (
                    #[trigger] self.queue@[k].depth) <= self.config.max_depth by {
                        if k < prevq.len() {
                            assert(self.queue@[k] == prevq[k]);
                            assert(prevq[k].url@ == self.queue@[k].url@);
                        }
                    }
                    assert forall|k: int| 0 <= k < self.pending@.len() implies self.visited
                        .deep_view().contains(#[trigger] self.pending@[k].parent@) by {
                        assert(old(self).visited.deep_view().contains(
                            old(self).pending@[k].parent@,
                        ));
                    }
                    lemma_inv_parts(self);
                }
            } else {
                proof {
                    assert(spec_new_seeds(uv.take(i + 1), vv) =~= spec_new_seeds(
                        uv.take(i as int),
                        vv,
                    ));
                    assert(queue_urls(self.queue@) =~= queue_urls(old(self).queue@)
                        + spec_new_seeds(uv.take(i + 1), vv));
                }
            }
            i = i + 1;
        }
        proof {
            assert(uv.take(urls@.len() as int) =~= uv);
        }
        true
    }

    /// Takes the next job: removes the queue head and lowers the active-jobs
    /// counter at once. An unvisited URL is recorded as visited and counted
    /// found; one outside the allowed domain is counted external and not
    /// fetched; otherwise the caller is asked to fetch it.
    #[verifier::rlimit(50)]
    pub fn take_job(&mut self) -> (r: JobOutcome)
        requires
            old(self).inv(),
        ensures
            final(self).inv(),
            final(self).config == old(self).config,
            final(self).url_filter == old(self).url_filter,
            final(self).robots == old(self).robots,
            final(self).shutdown == old(self).shutdown,
            final(self).results == old(self).results,
            final(self).pending == old(self).pending,
            final(self).enqueued == old(self).enqueued,
            final(self).seeds == old(self).seeds,
            final(self).stats.start_time == old(self).stats.start_time,
            final(self).stats.excluded_links == old(self).stats.excluded_links,
            match r {
                JobOutcome::QueueEmpty => *final(self) == *old(self) && old(self).queue@.len() == 0,
                JobOutcome::AlreadyVisited => {
                    &&& old(self).queue@.len() > 0
                    &&& old(self).visited.deep_view().contains(old(self).queue@[0].url@)
                    &&& final(self).queue@ == old(self).queue@.drop_first()
                    &&& final(self).visited == old(self).visited
                    &&& final(self).stats == old(self).stats
                    &&& final(self).in_flight == old(self).in_flight
                },
                JobOutcome::External { url } => {
                    &&& old(self).queue@.len() > 0
                    &&& url@ == old(self).queue@[0].url@
                    &&& !old(self).visited.deep_view().contains(url@)
                    &&& final(self).queue@ == old(self).queue@.drop_first()
                    &&& final(self).visited.deep_view() == old(self).visited.deep_view().push(url@)
                    &&& final(self).stats.pages_found == old(self).stats.pages_found + 1
                    &&& final(self).stats.external_links == old(self).stats.external_links + 1
                    &&& final(self).stats.pages_crawled == old(self).stats.pages_crawled
                    &&& final(self).stats.errors == old(self).stats.errors
                    &&& final(self).in_flight == old(self).in_flight
                    &&& old(self).config.allowed_domain matches Some(d) && spec_url_domain(url@)
                        matches Some(h) && !spec_host_in_scope(h, d@)
                },
                JobOutcome::Fetch { url, depth } => {
                    &&& old(self).queue@.len() > 0
                    &&& url@ == old(self).queue@[0].url@
                    &&& depth == old(self).queue@[0].depth
                    &&& depth <= final(self).config.max_depth
                    &&& !old(self).visited.deep_view().contains(url@)
                    &&& !result_urls(final(self).results@).contains(url@)
                    &&& final(self).queue@ == old(self).queue@.drop_first()
                    &&& final(self).visited.deep_view() == old(self).visited.deep_view().push(url@)
                    &&& final(self).visited.deep_view().contains(url@)
                    &&& final(self).stats.pages_found == old(self).stats.pages_found + 1
                    &&& final(self).in_flight == old(self).in_flight + 1
                    &&& final(self).stats.pages_crawled == old(self).stats.pages_crawled
                    &&& final(self).stats.errors == old(self).stats.errors
                    &&& final(self).stats.external_links == old(self).stats.external_links
                },
            },
    {
        if self.queue.len() == 0 {
            return JobOutcome::QueueEmpty;
        }
        let job = self.queue.remove(0);
        self.active_jobs = self.queue.len();
        proof {
            assert(self.queue@ =~= old(self).queue@.drop_first());
            assert(job == old(self).queue@[0]);
            lemma_queue_drop_first(old(self).queue@, self.queue@);
            assert forall|i: int| 0 <= i < self.queue@.len() implies self.enqueued@.contains(
                #[trigger] self.queue@[i].url@,
            ) && self.queue@[i].depth <= self.config.max_depth by {
                assert(self.queue@[i] == old(self).queue@[i + 1]);
                assert(self.enqueued@.contains(old(self).queue@[i + 1].url@));
            }
        }
        let seen = contains_str(&self.visited, job.url.as_str());
        if seen {
            proof {
                lemma_enqueued_still_covered(
                    self.enqueued@,
                    self.visited.deep_view(),
                    old(self).queue@,
                    self.queue@,
                );
                assert(self.inv());
            }
            return JobOutcome::AlreadyVisited;
        }
        let in_scope: bool = match &self.config.allowed_domain {
            None => true,
            Some(d) => match url_domain(job.url.as_str()) {
                Some(h) => host_in_scope(h.as_str(), d.as_str()),
                None => true,
            },
        };
        let ghost u = job.url@;
        let ghost oldvv = self.visited.deep_view();
        self.visited.push(clone_string(&job.url));
        self.stats.pages_found = self.visited.len();
        proof {
            let newvv = self.visited.deep_view();
            assert(newvv =~= oldvv.push(u));
            assert(newvv.contains(u)) by {
                assert(newvv.last() == u);
            }
            assert forall|i: int| 0 <= i < newvv.len() implies self.enqueued@.contains(
                #[trigger] newvv[i],
            ) by {
                if i < newvv.len() - 1 {
                    assert(newvv[i] == oldvv[i]);
                } else {
                    assert(newvv[i] == u);
                    assert(self.enqueued@.contains(u));
                }
            }
            assert forall|w: Seq<char>| #[trigger] self.enqueued@.contains(w) implies newvv
                .contains(w) || queue_urls(self.queue@).contains(w) by {
                if oldvv.contains(w) {
                    lemma_push_keeps_contains(oldvv, u, w);
                } else {
                    let k = choose|k: int|
                        0 <= k < queue_urls(old(self).queue@).len() && queue_urls(
                            old(self).queue@,
                        )[k] == w;
                    if k == 0 {
                        assert(w == u);
                        assert(newvv.contains(u));
                    } else {
                        assert(queue_urls(self.queue@)[k - 1] == queue_urls(old(self).queue@)[k]);
                        assert(queue_urls(self.queue@).contains(w));
                    }
                }
            }
            assert forall|i: int| 0 <= i < self.results@.len() implies newvv.contains(
                #[trigger] self.results@[i].url@,
            ) by {
                assert(oldvv.contains(self.results@[i].url@));
                lemma_push_keeps_contains(oldvv, u, self.results@[i].url@);
            }
            assert forall|k: int| 0 <= k < self.pending@.len() implies newvv.contains(
                #[trigger] self.pending@[k].parent@,
            ) by {
                assert(oldvv.contains(old(self).pending@[k].parent@));
                lemma_push_keeps_contains(oldvv, u, self.pending@[k].parent@);
            }
        }
        if !in_scope {
            self.stats.external_links = self.stats.external_links + 1;
            proof {
                assert(self.inv());
            }
            return JobOutcome::External { url: job.url };
        }
        self.in_flight = self.in_flight + 1;
        proof {
            assert(!result_urls(self.results@).contains(u)) by {
                if result_urls(self.results@).contains(u) {
                    let k = choose|k: int|
                        0 <= k < result_urls(self.results@).len() && result_urls(self.results@)[k]
                            == u;
                    assert(self.results@[k].url@ == u);
                    assert(oldvv.contains(u));
                }
            }
            assert(self.inv());
        }
        JobOutcome::Fetch { url: job.url, depth: job.depth }
    }

    /// Records a successfully fetched page and admits its links. The body
    /// is parsed for the title and the outgoing links; one result is
    /// appended; and, when the page's depth is below the cap, every link
    /// runs through the admission pipeline: an already-visited link is
    /// dropped, one the pattern filter rejects is counted excluded, one the
    /// robots rules reject is counted excluded, one whose host has no robots
    /// entry yet is parked as pending, and the rest are enqueued one level
    /// deeper, with the active-jobs counter raised before each enqueue.
    #[verifier::rlimit(100)]
    pub fn record_page(
        &mut self,
        url: String,
        depth: usize,
        status_code: u16,
        content_type: String,
        body: &str,
        now_ms: i64,
    )
        requires
            old(self).inv(),
            old(self).in_flight >= 1,
            old(self).visited.deep_view().contains(url@),
            !result_urls(old(self).results@).contains(url@),
            depth <= old(self).config.max_depth,
        ensures
            final(self).inv(),
            final(self).config == old(self).config,
            final(self).url_filter == old(self).url_filter,
            final(self).robots == old(self).robots,
            final(self).visited == old(self).visited,
            final(self).seeds == old(self).seeds,
            final(self).shutdown == old(self).shutdown,
            final(self).in_flight == old(self).in_flight - 1,
            final(self).stats.pages_found == old(self).stats.pages_found,
            final(self).stats.errors == old(self).stats.errors,
            final(self).stats.external_links == old(self).stats.external_links,
            final(self).stats.start_time == old(self).stats.start_time,
            final(self).stats.end_time == old(self).stats.end_time,
            final(self).stats.pages_crawled == old(self).stats.pages_crawled + 1,
            final(self).results@.len() == old(self).results@.len() + 1,
            final(self).results@.drop_last() == old(self).results@,
            ({
                let r = final(self).results@.last();
                &&& r.url@ == url@
                &&& r.title@ == spec_page_title(body@)
                &&& r.status_code == status_code
                &&& r.depth == depth
                &&& r.links.deep_view() == spec_resolved_links(url@, spec_hrefs(body@))
                &&& r.error is None
                &&& r.crawled_at == now_ms
                &&& r.content_type@ == content_type@
            }),
            depth < old(self).config.max_depth ==> ({
                let ctx = old(self).admit_ctx();
                let lv = spec_resolved_links(url@, spec_hrefs(body@));
                &&& queue_urls(final(self).queue@) == queue_urls(old(self).queue@)
                    + spec_enqueued_urls(ctx, lv)
                &&& forall|k: int|
                    old(self).queue@.len() <= k < final(self).queue@.len()
                        ==> (#[trigger] final(self).queue@[k].depth) == depth + 1
                &&& final(self).stats.excluded_links == spec_excluded_after(
                    ctx,
                    lv,
                    old(self).stats.excluded_links,
                )
                &&& pending_views(final(self).pending@) == pending_views(old(self).pending@)
                    + spec_pending_of(ctx, lv, url@, (depth + 1) as nat)
            }),
            depth >= old(self).config.max_depth ==> {
                &&& final(self).queue == old(self).queue
                &&& final(self).pending == old(self).pending
                &&& final(self).stats.excluded_links == old(self).stats.excluded_links
            },
    {
        let title = self.parser.parse_title(body);
        let links = self.parser.parse_links(body, url.as_str());
        let ghost u = url@;
        let ghost lv = spec_resolved_links(url@, spec_hrefs(body@));
        let result_links = clone_strings(&links);
        let result = PageResult {
            url: clone_string(&url),
            title,
            status_code,
            depth,
            links: result_links,
            error: None,
            crawled_at: now_ms,
            content_type,
        };
        self.results.push(result);
        self.stats.pages_crawled = self.results.len();
        self.in_flight = self.in_flight - 1;
        proof {
            assert(self.results@.drop_last() =~= old(self).results@);
            assert forall|i: int, j: int| 0 <= i < j < self.results@.len() implies self.results@[
                i
            ].url@ != self.results@[j].url@ by {
                if j == self.results@.len() - 1 {
                    assert(self.results@[i] == old(self).results@[i]);
                    if old(self).results@[i].url@ == u {
                        assert(result_urls(old(self).results@)[i] == u);
                        assert(result_urls(old(self).results@).contains(u));
                    }
                }
            }
            assert forall|i: int| 0 <= i < self.results@.len() implies self.visited.deep_view()
                .contains(#[trigger] self.results@[i].url@) && self.results@[i].depth
                <= self.config.max_depth by {
                if i < self.results@.len() - 1 {
                    assert(self.results@[i] == old(self).results@[i]);
                    assert(old(self).visited.deep_view().contains(old(self).results@[i].url@));
                }
            }
            assert forall|k: int| 0 <= k < self.queue@.len() implies self.enqueued@.contains(
                #[trigger] self.queue@[k].url@,
            ) && self.queue@[k].depth <= self.config.max_depth by {
                assert(old(self).queue@[k].url@ == self.queue@[k].url@);
            }
            assert forall|w: Seq<char>| #[trigger] self.enqueued@.contains(w) implies self.visited
                .deep_view().contains(w) || queue_urls(self.queue@).contains(w) by {
                assert(old(self).visited == self.visited);
                assert(old(self).queue == self.queue);
            }
            assert forall|k: int| 0 <= k < self.pending@.len() implies self.visited.deep_view()
                .contains(#[trigger] self.pending@[k].parent@) by {
                assert(old(self).visited.deep_view().contains(old(self).pending@[k].parent@));
            }
            lemma_inv_parts(self);
        }
        if depth >= self.config.max_depth {
            return ;
        }
        let child_depth = depth + 1;
        let ghost ctx = self.admit_ctx();
        let ghost q0 = self.queue@;
        let ghost p0 = self.pending@;
        let ghost x0 = self.stats.excluded_links;
        let ghost st0 = self.stats;
        let ghost res0 = self.results@;
        let ghost if0 = self.in_flight;
        proof {
            assert(ctx == old(self).admit_ctx());
            assert(links.deep_view() == lv);
            assert(spec_enqueued_urls(ctx, lv.take(0)) =~= Seq::<Seq<char>>::empty());
            assert(queue_urls(self.queue@) =~= queue_urls(q0) + spec_enqueued_urls(
                ctx,
                lv.take(0),
            ));
            assert(spec_pending_of(ctx, lv.take(0), u, child_depth as nat)
                =~= Seq::<PendView>::empty());
            assert(pending_views(self.pending@) =~= pending_views(p0) + spec_pending_of(
                ctx,
                lv.take(0),
                u,
                child_depth as nat,
            ));
        }
        let mut i: usize = 0;
        while i < links.len()
            invariant
                i <= links.len(),
                links.deep_view() == lv,
                lv.len() == links@.len(),
                u == url@,
                self.inv(),
                self.admit_ctx() == ctx,
                self.config == old(self).config,
                self.url_filter == old(self).url_filter,
                self.robots == old(self).robots,
                self.visited == old(self).visited,
                self.seeds == old(self).seeds,
                self.shutdown == old(self).shutdown,
                self.results@ == res0,
                self.in_flight == if0,
                self.stats.pages_found == st0.pages_found,
                self.stats.pages_crawled == st0.pages_crawled,
                self.stats.errors == st0.errors,
                self.stats.external_links == st0.external_links,
                self.stats.start_time == st0.start_time,
                self.stats.end_time == st0.end_time,
                self.stats.duration == st0.duration,
                self.visited.deep_view().contains(u),
                child_depth <= self.config.max_depth,
                queue_urls(self.queue@) == queue_urls(q0) + spec_enqueued_urls(
                    ctx,
                    lv.take(i as int),
                ),
                forall|k: int| 0 <= k < q0.len() ==> self.queue@[k] == q0[k],
                forall|k: int|
                    q0.len() <= k < self.queue@.len() ==> (#[trigger] self.queue@[k].depth)
                        == child_depth,
                self.stats.excluded_links == spec_excluded_after(ctx, lv.take(i as int), x0),
                pending_views(self.pending@) == pending_views(p0) + spec_pending_of(
                    ctx,
                    lv.take(i as int),
                    u,
                    child_depth as nat,
                ),
            decreases links.len() - i,
        {
            let ghost e0 = *self;
            proof {
                assert(lv.take(i + 1).drop_last() =~= lv.take(i as int));
                assert(lv.take(i + 1).last() == lv[i as int]);
                assert(lv[i as int] == links@[i as int]@);
            }
            let ghost verdict_spec = spec_admit_link(ctx, lv[i as int]);
            let seen = contains_str(&self.visited, links[i].as_str());
            if seen {
                proof {
                    assert(verdict_spec is Skip);
                    assert(spec_enqueued_urls(ctx, lv.take(i + 1)) =~= spec_enqueued_urls(
                        ctx,
                        lv.take(i as int),
                    ));
                    assert(spec_excluded_after(ctx, lv.take(i + 1), x0) == spec_excluded_after(
                        ctx,
                        lv.take(i as int),
                        x0,
                    ));
                    assert(spec_pending_of(ctx, lv.take(i + 1), u, child_depth as nat)
                        =~= spec_pending_of(ctx, lv.take(i as int), u, child_depth as nat));
                }
            } else if !self.url_filter.should_crawl(links[i].as_str()) {
                self.stats.excluded_links = sat_inc(self.stats.excluded_links);
                proof {
                    assert(verdict_spec is Excluded);
                    assert(spec_enqueued_urls(ctx, lv.take(i + 1)) =~= spec_enqueued_urls(
                        ctx,
                        lv.take(i as int),
                    ));
                    assert(spec_excluded_after(ctx, lv.take(i + 1), x0) == sat_add1(
                        spec_excluded_after(ctx, lv.take(i as int), x0),
                    ));
                    assert(spec_pending_of(ctx, lv.take(i + 1), u, child_depth as nat)
                        =~= spec_pending_of(ctx, lv.take(i as int), u, child_depth as nat));
                    lemma_inv_same_shape(e0, self);
                }
            } else {
                let mut verdict: RobotsDecision = RobotsDecision::Allowed;
                if self.config.respect_robots_txt {
                    verdict = self.robots.check(links[i].as_str());
                }
                match verdict {
                    RobotsDecision::Allowed => {
                        proof {
                            assert(verdict_spec is Enqueue);
                        }
                        self.enqueue_child(&links[i], child_depth, Ghost(u));
                        proof {
                            assert(queue_urls(self.queue@) =~= queue_urls(q0)
                                + spec_enqueued_urls(ctx, lv.take(i + 1)));
                            assert(spec_excluded_after(ctx, lv.take(i + 1), x0)
                                == spec_excluded_after(ctx, lv.take(i as int), x0));
                            assert(spec_pending_of(ctx, lv.take(i + 1), u, child_depth as nat)
                                =~= spec_pending_of(ctx, lv.take(i as int), u, child_depth as nat));
                        }
                    },
                    RobotsDecision::Disallowed => {
                        self.stats.excluded_links = sat_inc(self.stats.excluded_links);
                        proof {
                            assert(verdict_spec is Excluded);
                            assert(spec_enqueued_urls(ctx, lv.take(i + 1))
                                =~= spec_enqueued_urls(ctx, lv.take(i as int)));
                            assert(spec_excluded_after(ctx, lv.take(i + 1), x0) == sat_add1(
                                spec_excluded_after(ctx, lv.take(i as int), x0),
                            ));
                            assert(spec_pending_of(ctx, lv.take(i + 1), u, child_depth as nat)
                                =~= spec_pending_of(ctx, lv.take(i as int), u, child_depth as nat));
                            lemma_inv_same_shape(e0, self);
                        }
                    },
                    RobotsDecision::NeedFetch { host, robots_url } => {
                        let ghost pend0 = self.pending@;
                        let ghost gh = host@;
                        let ghost gr = robots_url@;
                        let link_clone = clone_string(&links[i]);
                        let parent_clone = clone_string(&url);
                        proof {
                            assert(link_clone@ == links@[i as int]@);
                            assert(links.deep_view()[i as int] == links@[i as int]@);
                            assert(link_clone@ == lv[i as int]);
                            assert(parent_clone@ == url@);
                            assert(parent_clone@ == u);
                        }
                        self.pending.push(
                            PendingLink {
                                url: link_clone,
                                depth: child_depth,
                                parent: parent_clone,
                                host,
                                robots_url,
                            },
                        );
                        proof {
                            assert(verdict_spec == (LinkAdmit::Pend { host: gh, robots_url: gr }));
                            let pv = PendView {
                                url: lv[i as int],
                                depth: child_depth as nat,
                                parent: u,
                                host: gh,
                                robots_url: gr,
                            };
                            assert(self.pending@.last().url@ == lv[i as int]);
                            assert(self.pending@.last().parent@ == u);
                            assert(self.pending@.last().host@ == gh);
                            assert(self.pending@.last().robots_url@ == gr);
                            assert(pending_views(self.pending@) =~= pending_views(pend0).push(pv));
                            assert(spec_pending_of(ctx, lv.take(i + 1), u, child_depth as nat)
                                =~= spec_pending_of(ctx, lv.take(i as int), u, child_depth as nat)
                                + seq![pv]);
                            assert(pending_views(self.pending@) =~= pending_views(p0)
                                + spec_pending_of(ctx, lv.take(i + 1), u, child_depth as nat));
                            assert(queue_urls(self.queue@) =~= queue_urls(q0)
                                + spec_enqueued_urls(ctx, lv.take(i + 1)));
                            assert(spec_excluded_after(ctx, lv.take(i + 1), x0)
                                == spec_excluded_after(ctx, lv.take(i as int), x0));
                            assert forall|k: int| 0 <= k < self.pending@.len() implies self.visited
                                .deep_view().contains(#[trigger] self.pending@[k].parent@)
                                && self.pending@[k].depth <= self.config.max_depth by {
                                if k < self.pending@.len() - 1 {
                                    assert(self.pending@[k] == pend0[k]);
                                    assert(self.visited.deep_view().contains(pend0[k].parent@));
                                } else {
                                    assert(self.pending@[k].parent@ == u);
                                    assert(self.pending@[k].depth == child_depth);
                                    assert(self.visited.deep_view().contains(u));
                                }
                            }
                            lemma_inv_pending_push(e0, self);
                        }
                    },
                }
            }
            i = i + 1;
        }
        proof {
            assert(lv.take(links@.len() as int) =~= lv);
        }
    }

    /// Admits one link into the queue: raises the active-jobs counter with
    /// the enqueue and records the link's provenance.
    #[verifier::rlimit(100)]
    fn enqueue_child(&mut self, link: &String, child_depth: usize, Ghost(parent): Ghost<Seq<char>>)
        requires
            old(self).inv(),
            old(self).visited.deep_view().contains(parent),
            child_depth <= old(self).config.max_depth,
        ensures
            final(self).inv(),
            *final(self) == (CrawlEngine {
                queue: final(self).queue,
                active_jobs: final(self).active_jobs,
                enqueued: final(self).enqueued,
                parent_of: final(self).parent_of,
                rank: final(self).rank,
                ..*old(self)
            }),
            final(self).queue@.len() == old(self).queue@.len() + 1,
            forall|k: int| 0 <= k < old(self).queue@.len() ==> final(self).queue@[k] == old(
                self,
            ).queue@[k],
            final(self).queue@.last().url@ == link@,
            final(self).queue@.last().depth == child_depth,
            queue_urls(final(self).queue@) == queue_urls(old(self).queue@).push(link@),
            final(self).enqueued@ == old(self).enqueued@.insert(link@),
    {
        let ghost l = link@;
        let ghost prevq = self.queue@;
        let ghost prev_enq = self.enqueued@;
        self.queue.push(CrawlJob { url: clone_string(link), depth: child_depth });
        self.active_jobs = self.queue.len();
        proof {
            if !self.enqueued@.contains(l) {
                let ghost ru = self.rank@[parent];
                self.enqueued@ = self.enqueued@.insert(l);
                self.parent_of@ = self.parent_of@.insert(l, parent);
                self.rank@ = self.rank@.insert(l, ru + 1);
                assert(prev_enq.contains(parent));
                lemma_child_ghosts(
                    prev_enq,
                    self.enqueued@,
                    self.seeds@,
                    old(self).parent_of@,
                    self.parent_of@,
                    old(self).rank@,
                    self.rank@,
                    parent,
                    l,
                );
            } else {
                self.enqueued@ = self.enqueued@.insert(l);
                assert(self.enqueued@ =~= prev_enq);
                assert forall|w: Seq<char>|
                    #[trigger] self.enqueued@.contains(w) && !self.seeds@.contains(w) implies {
                    &&& self.parent_of@.dom().contains(w)
                    &&& self.enqueued@.contains(self.parent_of@[w])
                    &&& self.rank@.dom().contains(self.parent_of@[w])
                    &&& self.rank@[self.parent_of@[w]] < self.rank@[w]
                } by {
                    assert(prev_enq.contains(w));
                }
            }
            lemma_enqueue_step(
                prev_enq,
                self.enqueued@,
                self.visited.deep_view(),
                prevq,
                self.queue@,
                l,
            );
            assert forall|k: int| 0 <= k < self.queue@.len() implies (#[trigger] self.queue@[
                k
            ].depth) <= self.config.max_depth by {
                if k < prevq.len() {
                    assert(self.queue@[k] == prevq[k]);
                    assert(prevq[k].url@ == self.queue@[k].url@);
                }
            }
            assert forall|k: int| 0 <= k < self.pending@.len() implies self.visited.deep_view()
                .contains(#[trigger] self.pending@[k].parent@) by {
                assert(old(self).visited.deep_view().contains(old(self).pending@[k].parent@));
            }
            lemma_inv_parts(self);
        }
    }

    /// Takes the most recently parked pending link and runs it through the
    /// whole admission pipeline again: dropped if visited meanwhile, counted
    /// excluded if the pattern filter or the robots rules reject it,
    /// enqueued if admitted, and parked again — asking the caller for a
    /// fetch — if its host still has no robots entry.
    #[verifier::rlimit(100)]
    pub fn resolve_one(&mut self) -> (r: PendingOutcome)
        requires
            old(self).inv(),
        ensures
            final(self).inv(),
            final(self).config == old(self).config,
            final(self).url_filter == old(self).url_filter,
            final(self).robots == old(self).robots,
            final(self).visited == old(self).visited,
            final(self).results == old(self).results,
            final(self).seeds == old(self).seeds,
            final(self).shutdown == old(self).shutdown,
            final(self).in_flight == old(self).in_flight,
            final(self).stats.pages_found == old(self).stats.pages_found,
            final(self).stats.pages_crawled == old(self).stats.pages_crawled,
            final(self).stats.errors == old(self).stats.errors,
            final(self).stats.external_links == old(self).stats.external_links,
            match r {
                PendingOutcome::NoneLeft => {
                    &&& old(self).pending@.len() == 0
                    &&& final(self).pending@ == old(self).pending@
                    &&& final(self).queue@ == old(self).queue@
                    &&& final(self).stats == old(self).stats
                },
                PendingOutcome::Skipped => {
                    &&& old(self).pending@.len() > 0
                    &&& spec_admit_link(old(self).admit_ctx(), old(self).pending@.last().url@)
                        is Skip
                    &&& final(self).pending@ == old(self).pending@.drop_last()
                    &&& final(self).queue@ == old(self).queue@
                    &&& final(self).stats == old(self).stats
                },
                PendingOutcome::Enqueued => {
                    &&& old(self).pending@.len() > 0
                    &&& spec_admit_link(old(self).admit_ctx(), old(self).pending@.last().url@)
                        is Enqueue
                    &&& final(self).pending@ == old(self).pending@.drop_last()
                    &&& queue_urls(final(self).queue@) == queue_urls(old(self).queue@).push(
                        old(self).pending@.last().url@,
                    )
                    &&& final(self).queue@.last().depth == old(self).pending@.last().depth
                    &&& final(self).stats == old(self).stats
                },
                PendingOutcome::Excluded => {
                    &&& old(self).pending@.len() > 0
                    &&& spec_admit_link(old(self).admit_ctx(), old(self).pending@.last().url@)
                        is Excluded
                    &&& final(self).pending@ == old(self).pending@.drop_last()
                    &&& final(self).queue@ == old(self).queue@
                    &&& final(self).stats.excluded_links == sat_add1(
                        old(self).stats.excluded_links,
                    )
                },
                PendingOutcome::NeedFetch { host, robots_url } => {
                    &&& old(self).pending@.len() > 0
                    &&& spec_admit_link(old(self).admit_ctx(), old(self).pending@.last().url@)
                        == (LinkAdmit::Pend { host: host@, robots_url: robots_url@ })
                    &&& final(self).pending@ == old(self).pending@
                    &&& final(self).queue@ == old(self).queue@
                    &&& final(self).stats == old(self).stats
                },
            },
    {
        let p = match self.pending.pop() {
            None => {
                return PendingOutcome::NoneLeft;
            },
            Some(p) => p,
        };
        let ghost e1 = *self;
        proof {
            assert(self.pending@ == old(self).pending@.drop_last());
            assert(old(self).pending@.last() == p);
            assert(old(self).visited.deep_view().contains(
                old(self).pending@[old(self).pending@.len() - 1].parent@,
            ));
            assert forall|k: int| 0 <= k < self.pending@.len() implies self.visited.deep_view()
                .contains(#[trigger] self.pending@[k].parent@) && self.pending@[k].depth
                <= self.config.max_depth by {
                assert(self.pending@[k] == old(self).pending@[k]);
                assert(old(self).visited.deep_view().contains(old(self).pending@[k].parent@));
            }
            assert forall|k: int| 0 <= k < self.queue@.len() implies self.enqueued@.contains(
                #[trigger] self.queue@[k].url@,
            ) && self.queue@[k].depth <= self.config.max_depth by {
                assert(old(self).queue@[k].url@ == self.queue@[k].url@);
            }
            assert forall|w: Seq<char>| #[trigger] self.enqueued@.contains(w) implies self.visited
                .deep_view().contains(w) || queue_urls(self.queue@).contains(w) by {
                assert(old(self).queue == self.queue);
            }
            lemma_inv_parts(self);
        }
        let seen = contains_str(&self.visited, p.url.as_str());
        if seen {
            return PendingOutcome::Skipped;
        }
        if !self.url_filter.should_crawl(p.url.as_str()) {
            self.stats.excluded_links = sat_inc(self.stats.excluded_links);
            proof {
                lemma_inv_same_shape(e1, self);
            }
            return PendingOutcome::Excluded;
        }
        let ghost par = p.parent@;
        proof {
            assert(self.visited.deep_view().contains(par));
        }
        if !self.config.respect_robots_txt {
            self.enqueue_child(&p.url, p.depth, Ghost(par));
            return PendingOutcome::Enqueued;
        }
        match self.robots.check(p.url.as_str()) {
            RobotsDecision::Allowed => {
                self.enqueue_child(&p.url, p.depth, Ghost(par));
                PendingOutcome::Enqueued
            },
            RobotsDecision::Disallowed => {
                self.stats.excluded_links = sat_inc(self.stats.excluded_links);
                proof {
                    lemma_inv_same_shape(e1, self);
                }
                PendingOutcome::Excluded
            },
            RobotsDecision::NeedFetch { host, robots_url } => {
                self.pending.push(p);
                proof {
                    assert(self.pending@ =~= old(self).pending@);
                    assert(self.pending@.last() == old(self).pending@.last());
                    lemma_inv_pending_push(e1, self);
                }
                PendingOutcome::NeedFetch { host, robots_url }
            },
        }
    }

    /// Records a fetched robots body (or its absence) for a host; the
    /// decision for pending links of that host can then be made.
    pub fn robots_record(&mut self, host: String, body: Option<String>)
        requires
            old(self).inv(),
        ensures
            final(self).inv(),
            *final(self) == (CrawlEngine { robots: final(self).robots, ..*old(self) }),
            final(self).robots.user_agent == old(self).robots.user_agent,
            cache_view(final(self).robots.cache@) == seq![
                (host@, crate::text::opt_str_view(body)),
            ] + cache_view(old(self).robots.cache@),
    {
        self.robots.record(host, body);
        proof {
            assert forall|k: int| 0 <= k < self.queue@.len() implies self.enqueued@.contains(
                #[trigger] self.queue@[k].url@,
            ) && self.queue@[k].depth <= self.config.max_depth by {
                assert(old(self).queue@[k].url@ == self.queue@[k].url@);
            }
            assert forall|w: Seq<char>| #[trigger] self.enqueued@.contains(w) implies self.visited
                .deep_view().contains(w) || queue_urls(self.queue@).contains(w) by {
                assert(old(self).visited == self.visited);
                assert(old(self).queue == self.queue);
            }
            assert forall|k: int| 0 <= k < self.pending@.len() implies self.visited.deep_view()
                .contains(#[trigger] self.pending@[k].parent@) by {
                assert(old(self).visited.deep_view().contains(old(self).pending@[k].parent@));
            }
            lemma_inv_parts(self);
        }
    }

    /// Records a failed fetch: the errors counter is raised and the job
    /// leaves the in-flight count; no result is recorded.
    #[verifier::rlimit(50)]
    pub fn record_error(&mut self)
        requires
            old(self).inv(),
            old(self).in_flight >= 1,
        ensures
            final(self).inv(),
            *final(self) == (CrawlEngine {
                stats: final(self).stats,
                in_flight: (old(self).in_flight - 1) as usize,
                ..*old(self)
            }),
            final(self).stats == (CrawlStats {
                errors: (old(self).stats.errors + 1) as usize,
                ..old(self).stats
            }),
    {
        self.stats.errors = self.stats.errors + 1;
        self.in_flight = self.in_flight - 1;
        proof {
            assert forall|w: Seq<char>| #[trigger] self.enqueued@.contains(w) implies self.visited
                .deep_view().contains(w) || queue_urls(self.queue@).contains(w) by {
                assert(old(self).visited == self.visited);
                assert(old(self).queue == self.queue);
            }
            assert forall|k: int| 0 <= k < self.queue@.len() implies self.enqueued@.contains(
                #[trigger] self.queue@[k].url@,
            ) && self.queue@[k].depth <= self.config.max_depth by {
                assert(old(self).queue@[k].url@ == self.queue@[k].url@);
            }
            assert forall|k: int| 0 <= k < self.pending@.len() implies self.visited.deep_view()
                .contains(#[trigger] self.pending@[k].parent@) by {
                assert(old(self).visited.deep_view().contains(old(self).pending@[k].parent@));
            }
            lemma_inv_parts(self);
        }
    }

    /// Whether the crawl has quiesced: no job in the queue, none in flight,
    /// and no link awaiting a robots body. The termination detector sets the
    /// shutdown flag when this holds.
    pub fn should_shutdown(&self) -> (r: bool)
        ensures
            r == (self.active_jobs == 0 && self.in_flight == 0 && self.pending@.len() == 0),
    {
        self.active_jobs == 0 && self.in_flight == 0 && self.pending.len() == 0
    }

    /// Terminates the crawl: sets the shutdown flag, stamps the end time and
    /// the duration as their difference in milliseconds.
    pub fn finish(&mut self, now_ms: i64)
        requires
            old(self).inv(),
            old(self).stats.start_time <= now_ms,
            now_ms - old(self).stats.start_time <= u64::MAX,
        ensures
            final(self).inv(),
            *final(self) == (CrawlEngine { stats: final(self).stats, shutdown: true, ..*old(self) }),
            final(self).stats == (CrawlStats {
                end_time: Some(now_ms),
                duration: Some((now_ms - old(self).stats.start_time) as u64),
                ..old(self).stats
            }),
    {
        self.shutdown = true;
        let d: i128 = (now_ms as i128) - (self.stats.start_time as i128);
        self.stats.end_time = Some(now_ms);
        self.stats.duration = Some(d as u64);
    }

    /// Hands the crawl's outcome out.
    pub fn into_results(self) -> (r: CrawlResults)
        ensures
            r.stats == self.stats,
            r.results == self.results,
    {
        CrawlResults { stats: self.stats, results: self.results }
    }
}

/// The sitemap URLs that actually seed the queue: those not yet visited.
pub open spec fn spec_new_seeds(urls: Seq<Seq<char>>, visited: Seq<Seq<char>>) -> Seq<Seq<char>>
    decreases urls.len(),
{
    if urls.len() == 0 {
        Seq::empty()
    } else {
        spec_new_seeds(urls.drop_last(), visited) + (if visited.contains(urls.last()) {
            Seq::<Seq<char>>::empty()
        } else {
            seq![urls.last()]
        })
    }
}

/// Rebuilds the engine invariant from its parts, so that a caller can
/// discharge each part as its own query.
proof fn lemma_inv_parts(e: &CrawlEngine)
    requires
        seq_no_dup(e.visited.deep_view()),
        e.visited.deep_view().len() == e.visited@.len(),
        forall|i: int|
            0 <= i < e.results@.len() ==> e.visited.deep_view().contains(
                #[trigger] e.results@[i].url@,
            ),
        forall|i: int, j: int|
            0 <= i < j < e.results@.len() ==> e.results@[i].url@ != e.results@[j].url@,
        forall|i: int|
            0 <= i < e.results@.len() ==> (#[trigger] e.results@[i].depth) <= e.config.max_depth,
        e.stats.pages_found == e.visited.deep_view().len(),
        e.stats.pages_crawled == e.results@.len(),
        e.stats.pages_crawled + e.stats.errors + e.stats.external_links + e.in_flight
            == e.stats.pages_found,
        e.active_jobs == e.queue@.len(),
        forall|i: int|
            0 <= i < e.queue@.len() ==> e.enqueued@.contains(#[trigger] e.queue@[i].url@)
                && e.queue@[i].depth <= e.config.max_depth,
        forall|u: Seq<char>|
            #[trigger] e.enqueued@.contains(u) ==> e.visited.deep_view().contains(u) || queue_urls(
                e.queue@,
            ).contains(u),
        forall|i: int|
            0 <= i < e.visited.deep_view().len() ==> e.enqueued@.contains(
                #[trigger] e.visited.deep_view()[i],
            ),
        forall|u: Seq<char>| #[trigger] e.seeds@.contains(u) ==> e.enqueued@.contains(u),
        forall|u: Seq<char>| #[trigger] e.enqueued@.contains(u) ==> e.rank@.dom().contains(u),
        forall|u: Seq<char>|
            #[trigger] e.enqueued@.contains(u) && !e.seeds@.contains(u) ==> {
                &&& e.parent_of@.dom().contains(u)
                &&& e.enqueued@.contains(e.parent_of@[u])
                &&& e.rank@.dom().contains(e.parent_of@[u])
                &&& e.rank@[e.parent_of@[u]] < e.rank@[u]
            },
        forall|i: int|
            0 <= i < e.pending@.len() ==> e.visited.deep_view().contains(
                #[trigger] e.pending@[i].parent@,
            ) && e.pending@[i].depth <= e.config.max_depth,
    ensures
        e.inv(),
{
}


/// What resolving one pending link yields.
#[derive(Debug)]
pub enum PendingOutcome {
    /// Nothing was pending.
    NoneLeft,
    /// The link was visited meanwhile and was dropped.
    Skipped,
    /// The link was enqueued at its recorded depth.
    Enqueued,
    /// The pattern filter or the robots rules reject the link; it was
    /// counted excluded.
    Excluded,
    /// The host still has no robots entry: fetch `robots_url`, record the
    /// body for `host`, and resolve again.
    NeedFetch { host: String, robots_url: String },
}

/// A state that differs from an invariant-holding one only in fields the
/// invariant does not read still satisfies the invariant.
proof fn lemma_inv_same_shape(e0: CrawlEngine, e1: &CrawlEngine)
    requires
        e0.inv(),
        e1.queue == e0.queue,
        e1.visited == e0.visited,
        e1.results == e0.results,
        e1.pending == e0.pending,
        e1.enqueued == e0.enqueued,
        e1.seeds == e0.seeds,
        e1.parent_of == e0.parent_of,
        e1.rank == e0.rank,
        e1.active_jobs == e0.active_jobs,
        e1.in_flight == e0.in_flight,
        e1.config == e0.config,
        e1.stats.pages_found == e0.stats.pages_found,
        e1.stats.pages_crawled == e0.stats.pages_crawled,
        e1.stats.errors == e0.stats.errors,
        e1.stats.external_links == e0.stats.external_links,
    ensures
        e1.inv(),
{
    assert forall|k: int| 0 <= k < e1.pending@.len() implies e1.visited.deep_view().contains(
        #[trigger] e1.pending@[k].parent@,
    ) && e1.pending@[k].depth <= e1.config.max_depth by {
        assert(e0.pending@[k].parent@ == e1.pending@[k].parent@);
    }
    assert forall|k: int| 0 <= k < e1.queue@.len() implies e1.enqueued@.contains(
        #[trigger] e1.queue@[k].url@,
    ) && e1.queue@[k].depth <= e1.config.max_depth by {
        assert(e0.queue@[k].url@ == e1.queue@[k].url@);
    }
    assert forall|w: Seq<char>| #[trigger] e1.enqueued@.contains(w) implies e1.visited.deep_view()
        .contains(w) || queue_urls(e1.queue@).contains(w) by {
        assert(e0.enqueued@.contains(w));
    }
    assert forall|k: int| 0 <= k < e1.visited.deep_view().len() implies e1.enqueued@.contains(
        #[trigger] e1.visited.deep_view()[k],
    ) by {
        assert(e0.enqueued@.contains(e0.visited.deep_view()[k]));
    }
    assert forall|k: int| 0 <= k < e1.results@.len() implies e1.visited.deep_view().contains(
        #[trigger] e1.results@[k].url@,
    ) && e1.results@[k].depth <= e1.config.max_depth by {
        assert(e0.visited.deep_view().contains(e0.results@[k].url@));
    }
    lemma_inv_parts(e1);
}

/// Parking one link as pending preserves the invariant when its parent is
/// visited and its depth is within the cap.
proof fn lemma_inv_pending_push(e0: CrawlEngine, e1: &CrawlEngine)
    requires
        e0.inv(),
        e1.queue == e0.queue,
        e1.visited == e0.visited,
        e1.results == e0.results,
        e1.pending@.len() == e0.pending@.len() + 1,
        forall|k: int| 0 <= k < e0.pending@.len() ==> e1.pending@[k] == e0.pending@[k],
        e1.visited.deep_view().contains(e1.pending@.last().parent@),
        e1.pending@.last().depth <= e1.config.max_depth,
        e1.enqueued == e0.enqueued,
        e1.seeds == e0.seeds,
        e1.parent_of == e0.parent_of,
        e1.rank == e0.rank,
        e1.active_jobs == e0.active_jobs,
        e1.in_flight == e0.in_flight,
        e1.config == e0.config,
        e1.stats.pages_found == e0.stats.pages_found,
        e1.stats.pages_crawled == e0.stats.pages_crawled,
        e1.stats.errors == e0.stats.errors,
        e1.stats.external_links == e0.stats.external_links,
    ensures
        e1.inv(),
{
    assert forall|k: int| 0 <= k < e1.pending@.len() implies e1.visited.deep_view().contains(
        #[trigger] e1.pending@[k].parent@,
    ) && e1.pending@[k].depth <= e1.config.max_depth by {
        if k < e1.pending@.len() - 1 {
            assert(e1.pending@[k] == e0.pending@[k]);
        }
    }
    lemma_inv_parts(e1);
}

/// Recording a fresh child's provenance keeps the provenance invariants:
/// the child's parent is enqueued with a strictly smaller rank, and every
/// older entry is untouched.
proof fn lemma_child_ghosts(
    enq0: Set<Seq<char>>,
    enq1: Set<Seq<char>>,
    seeds: Set<Seq<char>>,
    par0: Map<Seq<char>, Seq<char>>,
    par1: Map<Seq<char>, Seq<char>>,
    rk0: Map<Seq<char>, nat>,
    rk1: Map<Seq<char>, nat>,
    parent: Seq<char>,
    l: Seq<char>,
)
    requires
        !enq0.contains(l),
        enq0.contains(parent),
        rk0.dom().contains(parent),
        enq1 == enq0.insert(l),
        par1 == par0.insert(l, parent),
        rk1 == rk0.insert(l, rk0[parent] + 1),
        forall|s: Seq<char>| #[trigger] seeds.contains(s) ==> enq0.contains(s),
        forall|w: Seq<char>| #[trigger] enq0.contains(w) ==> rk0.dom().contains(w),
        forall|w: Seq<char>|
            #[trigger] enq0.contains(w) && !seeds.contains(w) ==> {
                &&& par0.dom().contains(w)
                &&& enq0.contains(par0[w])
                &&& rk0.dom().contains(par0[w])
                &&& rk0[par0[w]] < rk0[w]
            },
    ensures
        forall|s: Seq<char>| #[trigger] seeds.contains(s) ==> enq1.contains(s),
        forall|w: Seq<char>| #[trigger] enq1.contains(w) ==> rk1.dom().contains(w),
        forall|w: Seq<char>|
            #[trigger] enq1.contains(w) && !seeds.contains(w) ==> {
                &&& par1.dom().contains(w)
                &&& enq1.contains(par1[w])
                &&& rk1.dom().contains(par1[w])
                &&& rk1[par1[w]] < rk1[w]
            },
{
    assert(!seeds.contains(l));
    assert(parent != l);
    assert forall|w: Seq<char>| #[trigger] enq1.contains(w) && !seeds.contains(w) implies {
        &&& par1.dom().contains(w)
        &&& enq1.contains(par1[w])
        &&& rk1.dom().contains(par1[w])
        &&& rk1[par1[w]] < rk1[w]
    } by {
        if w == l {
            assert(par1[l] == parent);
            assert(rk1[parent] == rk0[parent]);
            assert(rk1[l] == rk0[parent] + 1);
        } else {
            assert(enq0.contains(w));
            assert(par1[w] == par0[w]);
            assert(par0[w] != l) by {
                assert(enq0.contains(par0[w]));
            }
            assert(rk1[par0[w]] == rk0[par0[w]]);
            assert(rk1[w] == rk0[w]);
        }
    }
}

/// Enqueueing one job keeps the queue's URLs a superset of what the
/// enqueued-set asks for: the new URL sits at the end, and every other
/// enqueued URL keeps its old witness.
proof fn lemma_enqueue_step(
    enq_old: Set<Seq<char>>,
    enq_new: Set<Seq<char>>,
    vv: Seq<Seq<char>>,
    oldq: Seq<CrawlJob>,
    newq: Seq<CrawlJob>,
    u: Seq<char>,
)
    requires
        newq.len() == oldq.len() + 1,
        forall|i: int| 0 <= i < oldq.len() ==> newq[i] == oldq[i],
        newq.last().url@ == u,
        enq_new == enq_old.insert(u),
        forall|w: Seq<char>|
            #[trigger] enq_old.contains(w) ==> vv.contains(w) || queue_urls(oldq).contains(w),
        forall|i: int| 0 <= i < oldq.len() ==> enq_old.contains(#[trigger] oldq[i].url@),
    ensures
        queue_urls(newq) == queue_urls(oldq).push(u),
        queue_urls(newq).contains(u),
        forall|w: Seq<char>|
            #[trigger] enq_new.contains(w) ==> vv.contains(w) || queue_urls(newq).contains(w),
        forall|i: int| 0 <= i < newq.len() ==> enq_new.contains(#[trigger] newq[i].url@),
{
    assert(queue_urls(newq) =~= queue_urls(oldq).push(u));
    assert(queue_urls(newq).contains(u)) by {
        assert(queue_urls(newq).last() == u);
    }
    assert forall|w: Seq<char>| #[trigger] enq_new.contains(w) implies vv.contains(w)
        || queue_urls(newq).contains(w) by {
        if w == u {
        } else {
            assert(enq_old.contains(w));
            if !vv.contains(w) {
                let k = choose|k: int|
                    0 <= k < queue_urls(oldq).len() && queue_urls(oldq)[k] == w;
                assert(queue_urls(newq)[k] == w);
            }
        }
    }
    assert forall|i: int| 0 <= i < newq.len() implies enq_new.contains(
        #[trigger] newq[i].url@,
    ) by {
        if i < oldq.len() {
            assert(newq[i] == oldq[i]);
            assert(enq_old.contains(oldq[i].url@));
        } else {
            assert(newq[i].url@ == u);
        }
    }
}

/// Pushing an element keeps every element already contained.
proof fn lemma_push_keeps_contains(s: Seq<Seq<char>>, x: Seq<char>, y: Seq<char>)
    requires
        s.contains(y),
    ensures
        s.push(x).contains(y),
{
    let k = choose|k: int| 0 <= k < s.len() && s[k] == y;
    assert(s.push(x)[k] == y);
}

/// Dropping the queue head keeps the URLs of the remaining jobs.
proof fn lemma_queue_drop_first(oldq: Seq<CrawlJob>, newq: Seq<CrawlJob>)
    requires
        oldq.len() > 0,
        newq == oldq.drop_first(),
    ensures
        forall|i: int| 0 <= i < newq.len() ==> newq[i] == oldq[i + 1],
        queue_urls(newq) == queue_urls(oldq).drop_first(),
{
    assert(queue_urls(newq) =~= queue_urls(oldq).drop_first());
}

/// After the queue head is taken and its URL is visited (or was already),
/// every enqueued URL is still visited or still queued.
proof fn lemma_enqueued_still_covered(
    enq: Set<Seq<char>>,
    vv: Seq<Seq<char>>,
    oldq: Seq<CrawlJob>,
    newq: Seq<CrawlJob>,
)
    requires
        oldq.len() > 0,
        newq == oldq.drop_first(),
        vv.contains(oldq[0].url@),
        forall|u: Seq<char>|
            #[trigger] enq.contains(u) ==> vv.contains(u) || queue_urls(oldq).contains(u),
    ensures
        forall|u: Seq<char>|
            #[trigger] enq.contains(u) ==> vv.contains(u) || queue_urls(newq).contains(u),
{
    assert forall|u: Seq<char>| #[trigger] enq.contains(u) implies vv.contains(u) || queue_urls(
        newq,
    ).contains(u) by {
        if !vv.contains(u) {
            let k = choose|k: int|
                0 <= k < queue_urls(oldq).len() && queue_urls(oldq)[k] == u;
            if k == 0 {
                assert(u == oldq[0].url@);
            } else {
                assert(queue_urls(newq)[k - 1] == queue_urls(oldq)[k]);
                assert(queue_urls(newq).contains(u));
            }
        }
    }
}

/// Every URL ever enqueued is visited once the queue has drained.
///
/// The queue's emptiness is the state the termination detector waits for;
/// with it, the invariant's coverage of enqueued URLs collapses to the
/// visited set.
pub proof fn lemma_enqueued_all_visited_on_drain(e: &CrawlEngine)
    requires
        e.inv(),
        e.queue@.len() == 0,
    ensures
        forall|u: Seq<char>|
            #[trigger] e.enqueued@.contains(u) ==> e.visited.deep_view().contains(u),
{
    assert forall|u: Seq<char>| #[trigger] e.enqueued@.contains(u) implies e.visited.deep_view()
        .contains(u) by {
        assert(queue_urls(e.queue@).len() == 0);
    }
}

/// Every recorded page result is for a visited URL and within the depth cap.
pub proof fn lemma_results_visited_and_depth_capped(e: &CrawlEngine)
    requires
        e.inv(),
    ensures
        forall|i: int|
            0 <= i < e.results@.len() ==> e.visited.deep_view().contains(
                #[trigger] e.results@[i].url@,
            ) && e.results@[i].depth <= e.config.max_depth,
{
}

/// No two entries of the result list share a URL.
pub proof fn lemma_results_unique(e: &CrawlEngine)
    requires
        e.inv(),
    ensures
        forall|i: int, j: int|
            0 <= i < j < e.results@.len() ==> e.results@[i].url@ != e.results@[j].url@,
{
}

/// When the active-jobs counter reads zero the queue is empty: the counter
/// is raised before every enqueue and lowered on dequeue, so it never
/// undercounts the queue.
pub proof fn lemma_quiescent_queue_empty(e: &CrawlEngine)
    requires
        e.inv(),
        e.active_jobs == 0,
    ensures
        e.queue@.len() == 0,
{
}

/// The successful and the failed fetches together never exceed the pages
/// admitted: every fetch outcome belongs to exactly one admitted URL.
pub proof fn lemma_crawled_and_errors_bounded(e: &CrawlEngine)
    requires
        e.inv(),
    ensures
        e.stats.pages_crawled + e.stats.errors <= e.stats.pages_found,
{
}

/// Whether a URL reaches a seed by following parent edges backwards within
/// `fuel` steps.
pub open spec fn spec_reaches_seed(
    seeds: Set<Seq<char>>,
    parent: Map<Seq<char>, Seq<char>>,
    u: Seq<char>,
    fuel: nat,
) -> bool
    decreases fuel,
{
    seeds.contains(u) || (fuel > 0 && parent.dom().contains(u) && spec_reaches_seed(
        seeds,
        parent,
        parent[u],
        (fuel - 1) as nat,
    ))
}

/// Reaching a seed within some fuel also holds for any larger fuel.
proof fn lemma_reaches_seed_mono(
    seeds: Set<Seq<char>>,
    parent: Map<Seq<char>, Seq<char>>,
    u: Seq<char>,
    f1: nat,
    f2: nat,
)
    requires
        f1 <= f2,
        spec_reaches_seed(seeds, parent, u, f1),
    ensures
        spec_reaches_seed(seeds, parent, u, f2),
    decreases f1,
{
    if !seeds.contains(u) {
        lemma_reaches_seed_mono(seeds, parent, parent[u], (f1 - 1) as nat, (f2 - 1) as nat);
    }
}

/// No spontaneous URLs: every URL ever enqueued reaches a seed by reversing
/// the parent edges recorded at enqueue time; the rank recorded for it
/// bounds the number of steps.
pub proof fn lemma_enqueued_reaches_seed(e: &CrawlEngine, u: Seq<char>)
    requires
        e.inv(),
        e.enqueued@.contains(u),
    ensures
        e.rank@.dom().contains(u),
        spec_reaches_seed(e.seeds@, e.parent_of@, u, e.rank@[u]),
    decreases e.rank@[u],
{
    if !e.seeds@.contains(u) {
        let p = e.parent_of@[u];
        lemma_enqueued_reaches_seed(e, p);
        lemma_reaches_seed_mono(e.seeds@, e.parent_of@, p, e.rank@[p], (e.rank@[u] - 1) as nat);
    }
}

} // verus!

//! URL admission by regex patterns: an includes list that acts as a
//! whitelist gate, then an exclude list that rejects within it. Pattern
//! sources that do not compile are dropped at construction, so the decision
//! is a pure function of the surviving pattern texts and the URL.
use vstd::prelude::*;

verus! {

/// Whether `regex::Regex::new` accepts the pattern: a pure function of the
/// pattern text.
pub uninterp spec fn spec_regex_valid(pattern: Seq<char>) -> bool;

/// Whether the pattern matches somewhere in the text, compiling first: what
/// `regex::Regex::new` followed by `Regex::is_match` computes, and `false`
/// for a pattern that does not compile. A pure function of the two texts.
pub uninterp spec fn spec_regex_match(pattern: Seq<char>, text: Seq<char>) -> bool;

/// Relies on `regex::Regex::new`: whether the pattern compiles depends on
/// the pattern text alone.
#[verifier::external_body]
fn regex_compiles(pattern: &str) -> (r: bool)
    ensures
        r == spec_regex_valid(pattern@),
{
    regex::Regex::new(pattern).is_ok()
}

/// Relies on `regex::Regex::new` and `Regex::is_match`: the match result
/// depends on the pattern and the text alone; a pattern that does not
/// compile matches nothing.
#[verifier::external_body]
fn regex_is_match(pattern: &str, text: &str) -> (r: bool)
    ensures
        r == spec_regex_match(pattern@, text@),
        !spec_regex_valid(pattern@) ==> !r,
{
    match regex::Regex::new(pattern) {
        Ok(re) => re.is_match(text),
        Err(_) => false,
    }
}

/// The subsequence of patterns that compile, in order.
pub open spec fn spec_keep_valid(ps: Seq<Seq<char>>) -> Seq<Seq<char>>
    decreases ps.len(),
{
    if ps.len() == 0 {
        Seq::empty()
    } else {
        spec_keep_valid(ps.drop_last()) + (if spec_regex_valid(ps.last()) {
            seq![ps.last()]
        } else {
            Seq::empty()
        })
    }
}

/// The admission decision over pattern texts: with a non-empty includes list
/// the URL must match at least one includes pattern, and it must match no
/// exclude pattern.
pub open spec fn spec_should_crawl(
    exclude: Seq<Seq<char>>,
    includes: Seq<Seq<char>>,
    url: Seq<char>,
) -> bool {
    (includes.len() > 0 ==> exists|i: int|
        0 <= i < includes.len() && spec_regex_match(includes[i], url)) && !(exists|i: int|
        0 <= i < exclude.len() && spec_regex_match(exclude[i], url))
}

/// URL filter over exclude and includes regex patterns.
#[derive(Clone, Debug)]
pub struct UrlFilter {
    /// Exclude pattern sources that compiled.
    pub exclude_patterns: Vec<String>,
    /// Include pattern sources that compiled.
    pub include_patterns: Vec<String>,
}

/// Keeps the patterns of `ps` that compile.
fn keep_valid(ps: &Vec<String>) -> (r: Vec<String>)
    ensures
        r.deep_view() == spec_keep_valid(ps.deep_view()),
        forall|i: int| 0 <= i < r.deep_view().len() ==> spec_regex_valid(#[trigger] r.deep_view()[i]),
{
    let mut r: Vec<String> = Vec::new();
    let mut i: usize = 0;
    proof {
        assert(ps.deep_view().take(0) =~= Seq::<Seq<char>>::empty());
    }
    while i < ps.len()
        invariant
            i <= ps.len(),
            ps.deep_view().len() == ps.len(),
            r.deep_view() == spec_keep_valid(ps.deep_view().take(i as int)),
            forall|j: int|
                0 <= j < r.deep_view().len() ==> spec_regex_valid(#[trigger] r.deep_view()[j]),
        decreases ps.len() - i,
    {
        let valid = regex_compiles(ps[i].as_str());
        proof {
            let pv = ps.deep_view();
            assert(pv.take(i + 1).drop_last() =~= pv.take(i as int));
            assert(pv.take(i + 1).last() == pv[i as int]);
        }
        if valid {
            let ghost before = r.deep_view();
            r.push(crate::text::clone_string(&ps[i]));
            proof {
                assert(r.deep_view() =~= before + seq![ps.deep_view()[i as int]]);
            }
        }
        i = i + 1;
    }
    proof {
        assert(ps.deep_view().take(ps.len() as int) =~= ps.deep_view());
    }
    r
}

impl UrlFilter {
    /// Builds a filter from exclude and includes pattern sources; a source
    /// that does not compile is silently dropped.
    pub fn new(exclude: &Vec<String>, includes: &Vec<String>) -> (f: Self)
        ensures
            f.exclude_patterns.deep_view() == spec_keep_valid(exclude.deep_view()),
            f.include_patterns.deep_view() == spec_keep_valid(includes.deep_view()),
    {
        UrlFilter { exclude_patterns: keep_valid(exclude), include_patterns: keep_valid(includes) }
    }

    /// Decides whether a URL passes the pattern filter. The decision depends
    /// only on the stored pattern texts and the URL, so admitting the same
    /// URL twice yields the same decision.
    pub fn should_crawl(&self, url: &str) -> (r: bool)
        ensures
            r == spec_should_crawl(
                self.exclude_patterns.deep_view(),
                self.include_patterns.deep_view(),
                url@,
            ),
    {
        if self.include_patterns.len() > 0 {
            let mut i: usize = 0;
            let mut any: bool = false;
            while i < self.include_patterns.len()
                invariant
                    i <= self.include_patterns.len(),
                    self.include_patterns.deep_view().len() == self.include_patterns.len(),
                    !any ==> forall|j: int|
                        0 <= j < i ==> !spec_regex_match(
                            #[trigger] self.include_patterns.deep_view()[j],
                            url@,
                        ),
                    any ==> exists|j: int|
                        0 <= j < i && spec_regex_match(
                            #[trigger] self.include_patterns.deep_view()[j],
                            url@,
                        ),
                decreases self.include_patterns.len() - i,
            {
                let m = regex_is_match(self.include_patterns[i].as_str(), url);
                if m {
                    any = true;
                    proof {
                        assert(spec_regex_match(
                            self.include_patterns.deep_view()[i as int],
                            url@,
                        ));
                    }
                }
                i = i + 1;
            }
            if !any {
                proof {
                    assert(!(exists|j: int|
                        0 <= j < self.include_patterns.deep_view().len() && spec_regex_match(
                            #[trigger] self.include_patterns.deep_view()[j],
                            url@,
                        )));
                }
                return false;
            }
        }
        let mut i: usize = 0;
        while i < self.exclude_patterns.len()
            invariant
                i <= self.exclude_patterns.len(),
                self.exclude_patterns.deep_view().len() == self.exclude_patterns.len(),
                self.include_patterns.deep_view().len() > 0 ==> exists|j: int|
                    0 <= j < self.include_patterns.deep_view().len() && spec_regex_match(
                        #[trigger] self.include_patterns.deep_view()[j],
                        url@,
                    ),
                forall|j: int|
                    0 <= j < i ==> !spec_regex_match(
                        #[trigger] self.exclude_patterns.deep_view()[j],
                        url@,
                    ),
            decreases self.exclude_patterns.len() - i,
        {
            let m = regex_is_match(self.exclude_patterns[i].as_str(), url);
            if m {
                proof {
                    assert(spec_regex_match(self.exclude_patterns.deep_view()[i as int], url@));
                }
                return false;
            }
            i = i + 1;
        }
        proof {
            assert(!(exists|j: int|
                0 <= j < self.exclude_patterns.deep_view().len() && spec_regex_match(
                    #[trigger] self.exclude_patterns.deep_view()[j],
                    url@,
                )));
        }
        true
    }
}

/// Admission by the pattern filter is idempotent: the decision is a function
/// of the stored pattern texts and the URL alone, so deciding the same URL
/// twice against the same filter yields the same answer.
pub proof fn lemma_admission_idempotent(
    exclude: Seq<Seq<char>>,
    includes: Seq<Seq<char>>,
    url: Seq<char>,
    first: bool,
    second: bool,
)
    requires
        first == spec_should_crawl(exclude, includes, url),
        second == spec_should_crawl(exclude, includes, url),
    ensures
        first == second,
{
}

} // verus!

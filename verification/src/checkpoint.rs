//! Resumable crawl snapshots. A checkpoint carries the visited set, the
//! results so far, the statistics, a timestamp, and the crawl's base URL and
//! configuration fingerprint; the manager decides when to save, renders the
//! snapshot as JSON text, and accepts a stored text back only when it parses
//! and belongs to the same crawl. Reading what was written yields the same
//! snapshot — proved below — and a fingerprint mismatch is never accepted.
use vstd::prelude::*;

use crate::clock::now_millis;
use crate::json::{
    lemma_nest_rest, lemma_peel_i64, lemma_peel_page_arr, lemma_peel_stats, lemma_peel_str,
    lemma_peel_str_arr, lemma_peel_u64, lemma_skip_skip, i64_field, is_digit, page_arr_field,
    pages_view, sp_u64_field, spec_encode_page_arr, spec_encode_stats, spec_json_string,
    spec_encode_str_arr, stats_field, str_arr_field, str_field, str_to_chars, write_json_string,
    write_page_arr, write_stats, write_str_arr, PageResultView,
};
use crate::text::{clone_string, i64_to_string, spec_dec, spec_dec_i64, u64_to_string};
use crate::types::{CrawlStats, PageResult};

verus! {

/// A snapshot of a crawl in progress.
#[derive(Clone, Debug)]
pub struct Checkpoint {
    /// URLs that have been visited.
    pub visited: Vec<String>,
    /// Partial results collected so far.
    pub results: Vec<PageResult>,
    /// Current statistics.
    pub stats: CrawlStats,
    /// When the snapshot was taken, in milliseconds since the epoch.
    pub timestamp: i64,
    /// Base URL of the crawl.
    pub base_url: String,
    /// Fingerprint of the crawl configuration, to reject incompatible
    /// resumes.
    pub config_hash: u64,
}

/// A snapshot, over text values.
pub struct CheckpointView {
    pub visited: Seq<Seq<char>>,
    pub results: Seq<PageResultView>,
    pub stats: CrawlStats,
    pub timestamp: i64,
    pub base_url: Seq<char>,
    pub config_hash: u64,
}

/// A snapshot, seen over text values.
pub open spec fn checkpoint_view(c: Checkpoint) -> CheckpointView {
    CheckpointView {
        visited: c.visited.deep_view(),
        results: pages_view(c.results@),
        stats: c.stats,
        timestamp: c.timestamp,
        base_url: c.base_url@,
        config_hash: c.config_hash,
    }
}

/// The tail of a checkpoint text from the fingerprint field on.
#[verifier::opaque]
pub open spec fn ck_t6(c: CheckpointView, rest: Seq<char>) -> Seq<char> {
    ",\"config_hash\":"@ + (spec_dec(c.config_hash as nat) + ("}"@ + rest))
}

/// The tail of a checkpoint text from the base-URL field on.
#[verifier::opaque]
pub open spec fn ck_t5(c: CheckpointView, rest: Seq<char>) -> Seq<char> {
    ",\"base_url\":"@ + (spec_json_string(c.base_url) + ck_t6(c, rest))
}

/// The tail of a checkpoint text from the timestamp field on.
#[verifier::opaque]
pub open spec fn ck_t4(c: CheckpointView, rest: Seq<char>) -> Seq<char> {
    ",\"timestamp\":"@ + (spec_dec_i64(c.timestamp as int) + ck_t5(c, rest))
}

/// The tail of a checkpoint text from the statistics field on.
#[verifier::opaque]
pub open spec fn ck_t3(c: CheckpointView, rest: Seq<char>) -> Seq<char> {
    ",\"stats\":"@ + (spec_encode_stats(c.stats) + ck_t4(c, rest))
}

/// The tail of a checkpoint text from the results field on.
#[verifier::opaque]
pub open spec fn ck_t2(c: CheckpointView, rest: Seq<char>) -> Seq<char> {
    ",\"results\":"@ + (spec_encode_page_arr(c.results) + ck_t3(c, rest))
}

/// The checkpoint text followed by `rest`.
#[verifier::opaque]
pub open spec fn ck_t1(c: CheckpointView, rest: Seq<char>) -> Seq<char> {
    "{\"visited\":"@ + (spec_encode_str_arr(c.visited) + ck_t2(c, rest))
}

/// The JSON text of a snapshot: one object, fixed key order.
#[verifier::opaque]
pub open spec fn spec_encode_checkpoint(c: CheckpointView) -> Seq<char> {
    ck_t1(c, Seq::empty())
}

/// Reads the first half of a checkpoint object: visited, results, stats.
pub open spec fn spec_parse_ck_a(s: Seq<char>) -> Option<
    ((Seq<Seq<char>>, Seq<PageResultView>, CrawlStats), nat),
> {
    match crate::json::sp_str_arr_field(s, "{\"visited\":"@) {
        None => None,
        Some((visited, u1)) => match crate::json::sp_page_arr_field(
            s.skip(u1 as int),
            ",\"results\":"@,
        ) {
            None => None,
            Some((results, u2)) => match crate::json::sp_stats_field(
                s.skip((u1 + u2) as int),
                ",\"stats\":"@,
            ) {
                None => None,
                Some((stats, u3)) => Some(((visited, results, stats), u1 + u2 + u3)),
            },
        },
    }
}

/// Reads the second half of a checkpoint object: timestamp, base URL,
/// fingerprint and the closing brace.
pub open spec fn spec_parse_ck_b(s: Seq<char>) -> Option<((i64, Seq<char>, u64), nat)> {
    match crate::json::sp_i64_field(s, ",\"timestamp\":"@) {
        None => None,
        Some((ts, u4)) => match crate::json::sp_str_field(s.skip(u4 as int), ",\"base_url\":"@) {
            None => None,
            Some((base, u5)) => match sp_u64_field(
                s.skip((u4 + u5) as int),
                ",\"config_hash\":"@,
            ) {
                None => None,
                Some((hash, u6)) => {
                    let all = u4 + u5 + u6;
                    if s.len() > all && s[all as int] == '}' {
                        Some(((ts, base, hash), (all + 1) as nat))
                    } else {
                        None
                    }
                },
            },
        },
    }
}

/// Reads a checkpoint object: the snapshot and the characters consumed.
pub open spec fn spec_parse_checkpoint(s: Seq<char>) -> Option<(CheckpointView, nat)> {
    match spec_parse_ck_a(s) {
        None => None,
        Some(((visited, results, stats), u)) => match spec_parse_ck_b(s.skip(u as int)) {
            None => None,
            Some(((ts, base, hash), u2)) => Some(
                (
                    CheckpointView {
                        visited,
                        results,
                        stats,
                        timestamp: ts,
                        base_url: base,
                        config_hash: hash,
                    },
                    u + u2,
                ),
            ),
        },
    }
}

/// What a stored text means: the snapshot it holds, if the whole text is
/// one well-formed checkpoint object.
pub open spec fn spec_checkpoint_from_text(s: Seq<char>) -> Option<CheckpointView> {
    match spec_parse_checkpoint(s) {
        Some((c, u)) => if u == s.len() {
            Some(c)
        } else {
            None
        },
        None => None,
    }
}

impl Checkpoint {
    /// A snapshot of the given state, stamped with the current time.
    pub fn new(
        visited: Vec<String>,
        results: Vec<PageResult>,
        stats: CrawlStats,
        base_url: String,
        config_hash: u64,
    ) -> (c: Self)
        ensures
            c.visited == visited,
            c.results == results,
            c.stats == stats,
            c.base_url == base_url,
            c.config_hash == config_hash,
    {
        Checkpoint { visited, results, stats, timestamp: now_millis(), base_url, config_hash }
    }

    /// Whether the snapshot belongs to the crawl with this base URL and
    /// configuration fingerprint.
    pub fn is_valid(&self, base_url: &str, config_hash: u64) -> (r: bool)
        ensures
            r == (self.base_url@ == base_url@ && self.config_hash == config_hash),
    {
        crate::text::str_eq(self.base_url.as_str(), base_url) && self.config_hash == config_hash
    }

    /// Renders the snapshot as JSON text.
    pub fn to_json(&self) -> (r: String)
        ensures
            r@ == spec_encode_checkpoint(checkpoint_view(*self)),
    {
        proof {
            reveal(spec_encode_checkpoint);
            reveal(ck_t1);
            reveal(ck_t2);
            reveal(ck_t3);
            reveal(ck_t4);
            reveal(ck_t5);
            reveal(ck_t6);
        }
        let x7 = String::from_str("}");
        proof {
            assert(x7@ =~= "}"@ + Seq::<char>::empty());
        }
        let x6 = String::from_str(",\"config_hash\":").concat(
            u64_to_string(self.config_hash).concat(x7.as_str()).as_str(),
        );
        let mut base = String::new();
        write_json_string(&mut base, self.base_url.as_str());
        proof {
            assert(Seq::<char>::empty() + spec_json_string(self.base_url@) =~= spec_json_string(
                self.base_url@,
            ));
        }
        let x5 = String::from_str(",\"base_url\":").concat(base.concat(x6.as_str()).as_str());
        let x4 = String::from_str(",\"timestamp\":").concat(
            i64_to_string(self.timestamp).concat(x5.as_str()).as_str(),
        );
        let mut st = String::new();
        write_stats(&mut st, &self.stats);
        proof {
            assert(Seq::<char>::empty() + spec_encode_stats(self.stats) =~= spec_encode_stats(
                self.stats,
            ));
        }
        let x3 = String::from_str(",\"stats\":").concat(st.concat(x4.as_str()).as_str());
        let mut rs = String::new();
        write_page_arr(&mut rs, &self.results);
        proof {
            assert(Seq::<char>::empty() + spec_encode_page_arr(pages_view(self.results@))
                =~= spec_encode_page_arr(pages_view(self.results@)));
        }
        let x2 = String::from_str(",\"results\":").concat(rs.concat(x3.as_str()).as_str());
        let mut vs = String::new();
        write_str_arr(&mut vs, &self.visited);
        proof {
            assert(Seq::<char>::empty() + spec_encode_str_arr(self.visited.deep_view())
                =~= spec_encode_str_arr(self.visited.deep_view()));
        }
        let x1 = String::from_str("{\"visited\":").concat(vs.concat(x2.as_str()).as_str());
        x1
    }

    /// Reads a snapshot back from JSON text; yields one exactly when the
    /// whole text is one well-formed checkpoint object.
    pub fn from_json(s: &str) -> (r: Option<Checkpoint>)
        ensures
            match spec_checkpoint_from_text(s@) {
                Some(v) => r matches Some(c) && checkpoint_view(c) == v,
                None => r is None,
            },
    {
        let cs = str_to_chars(s);
        proof {
            assert(cs@.skip(0) =~= cs@);
        }
        let (a, np) = match parse_ck_a(&cs, 0) {
            Some(x) => x,
            None => {
                return None;
            },
        };
        proof {
            assert(cs@.skip(0).skip(np as int) =~= cs@.skip(np as int));
        }
        let (b, np2) = match parse_ck_b(&cs, np) {
            Some(x) => x,
            None => {
                return None;
            },
        };
        if np2 == cs.len() {
            let c = Checkpoint {
                visited: a.0,
                results: a.1,
                stats: a.2,
                timestamp: b.0,
                base_url: b.1,
                config_hash: b.2,
            };
            Some(c)
        } else {
            None
        }
    }
}

/// Reads the first half of a checkpoint object at `pos`.
#[verifier::rlimit(100)]
#[verifier::spinoff_prover]
fn parse_ck_a(cs: &Vec<char>, pos: usize) -> (r: Option<
    ((Vec<String>, Vec<PageResult>, CrawlStats), usize),
>)
    requires
        pos <= cs@.len(),
    ensures
        match spec_parse_ck_a(cs@.skip(pos as int)) {
            Some((v, u)) => r matches Some((w, np)) && w.0.deep_view() == v.0 && pages_view(w.1@)
                == v.1 && w.2 == v.2 && np == pos + u && np <= cs@.len(),
            None => r is None,
        },
{
    let ghost tail = cs@.skip(pos as int);
    let r1 = match str_arr_field(cs, pos, "{\"visited\":") {
        Some(x) => x,
        None => {
            return None;
        },
    };
    proof {
        assert(tail.skip((r1.1 - pos) as int) =~= cs@.skip(r1.1 as int));
    }
    let r2 = match page_arr_field(cs, r1.1, ",\"results\":") {
        Some(x) => x,
        None => {
            return None;
        },
    };
    proof {
        assert(tail.skip((r2.1 - pos) as int) =~= cs@.skip(r2.1 as int));
    }
    let r3 = match stats_field(cs, r2.1, ",\"stats\":") {
        Some(x) => x,
        None => {
            return None;
        },
    };
    Some(((r1.0, r2.0, r3.0), r3.1))
}

/// Reads the second half of a checkpoint object at `pos`.
#[verifier::rlimit(100)]
#[verifier::spinoff_prover]
fn parse_ck_b(cs: &Vec<char>, pos: usize) -> (r: Option<((i64, String, u64), usize)>)
    requires
        pos <= cs@.len(),
    ensures
        match spec_parse_ck_b(cs@.skip(pos as int)) {
            Some((v, u)) => r matches Some((w, np)) && w.0 == v.0 && w.1@ == v.1 && w.2 == v.2
                && np == pos + u && np <= cs@.len(),
            None => r is None,
        },
{
    let ghost tail = cs@.skip(pos as int);
    let r4 = match i64_field(cs, pos, ",\"timestamp\":") {
        Some(x) => x,
        None => {
            return None;
        },
    };
    proof {
        assert(tail.skip((r4.1 - pos) as int) =~= cs@.skip(r4.1 as int));
    }
    let r5 = match str_field(cs, r4.1, ",\"base_url\":") {
        Some(x) => x,
        None => {
            return None;
        },
    };
    proof {
        assert(tail.skip((r5.1 - pos) as int) =~= cs@.skip(r5.1 as int));
    }
    let r6 = match crate::json::u64_field(cs, r5.1, ",\"config_hash\":") {
        Some(x) => x,
        None => {
            return None;
        },
    };
    proof {
        assert(forall|k: int| 0 <= k < tail.len() ==> tail[k] == cs@[pos + k]);
    }
    if r6.1 < cs.len() && cs[r6.1] == '}' {
        proof {
            assert(tail[(r6.1 - pos) as int] == '}');
        }
        Some(((r4.0, r5.0, r6.0), r6.1 + 1))
    } else {
        None
    }
}

/// The key labels of a checkpoint object.
proof fn proof_ck_lits()
    ensures
        "{\"visited\":"@.len() > 0 && "{\"visited\":"@.first() == '{',
        ",\"results\":"@.len() > 0 && ",\"results\":"@.first() == ',',
        ",\"stats\":"@.len() > 0 && ",\"stats\":"@.first() == ',',
        ",\"timestamp\":"@.len() > 0 && ",\"timestamp\":"@.first() == ',',
        ",\"base_url\":"@.len() > 0 && ",\"base_url\":"@.first() == ',',
        ",\"config_hash\":"@.len() > 0 && ",\"config_hash\":"@.first() == ',',
        "}"@.len() == 1 && "}"@.first() == '}',
        !is_digit(',') && !is_digit('}'),
{
    reveal_strlit("{\"visited\":");
    reveal_strlit(",\"results\":");
    reveal_strlit(",\"stats\":");
    reveal_strlit(",\"timestamp\":");
    reveal_strlit(",\"base_url\":");
    reveal_strlit(",\"config_hash\":");
    reveal_strlit("}");
}

/// Appending text after an encoded checkpoint lands it innermost.
proof fn lemma_ck_rest(c: CheckpointView, rest: Seq<char>)
    ensures
        spec_encode_checkpoint(c) + rest == ck_t1(c, rest),
{
    reveal(spec_encode_checkpoint);
    reveal(ck_t1);
    reveal(ck_t2);
    reveal(ck_t3);
    reveal(ck_t4);
    reveal(ck_t5);
    reveal(ck_t6);
    assert(("}"@ + Seq::<char>::empty()) + rest =~= "}"@ + rest);
    lemma_nest_rest(
        ",\"config_hash\":"@,
        spec_dec(c.config_hash as nat),
        "}"@ + Seq::<char>::empty(),
        "}"@ + rest,
        rest,
    );
    lemma_nest_rest(
        ",\"base_url\":"@,
        spec_json_string(c.base_url),
        ck_t6(c, Seq::empty()),
        ck_t6(c, rest),
        rest,
    );
    lemma_nest_rest(
        ",\"timestamp\":"@,
        spec_dec_i64(c.timestamp as int),
        ck_t5(c, Seq::empty()),
        ck_t5(c, rest),
        rest,
    );
    lemma_nest_rest(
        ",\"stats\":"@,
        spec_encode_stats(c.stats),
        ck_t4(c, Seq::empty()),
        ck_t4(c, rest),
        rest,
    );
    lemma_nest_rest(
        ",\"results\":"@,
        spec_encode_page_arr(c.results),
        ck_t3(c, Seq::empty()),
        ck_t3(c, rest),
        rest,
    );
    lemma_nest_rest(
        "{\"visited\":"@,
        spec_encode_str_arr(c.visited),
        ck_t2(c, Seq::empty()),
        ck_t2(c, rest),
        rest,
    );
}

/// The first half of a checkpoint text reads back exactly.
#[verifier::rlimit(100)]
#[verifier::spinoff_prover]
proof fn lemma_parse_ck_a_complete(c: CheckpointView, rest: Seq<char>)
    ensures
        ({
            let s = ck_t1(c, rest);
            let consumed = s.len() - ck_t4(c, rest).len();
            spec_parse_ck_a(s) == Some(((c.visited, c.results, c.stats), consumed as nat))
                && s.skip(consumed) == ck_t4(c, rest)
        }),
{
    reveal(ck_t1);
    reveal(ck_t2);
    reveal(ck_t3);
    proof_ck_lits();
    let s = ck_t1(c, rest);
    let l1 = "{\"visited\":"@.len() + spec_encode_str_arr(c.visited).len();
    let l2 = ",\"results\":"@.len() + spec_encode_page_arr(c.results).len();
    let l3 = ",\"stats\":"@.len() + spec_encode_stats(c.stats).len();
    lemma_peel_str_arr(s, "{\"visited\":"@, c.visited, ck_t2(c, rest));
    lemma_peel_page_arr(ck_t2(c, rest), ",\"results\":"@, c.results, ck_t3(c, rest));
    lemma_peel_stats(ck_t3(c, rest), ",\"stats\":"@, c.stats, ck_t4(c, rest));
    assert(s.skip(l1 as int) == ck_t2(c, rest));
    lemma_skip_skip(s, l1 as int, l2 as int);
    assert(s.skip((l1 + l2) as int) == ck_t3(c, rest));
    lemma_skip_skip(s, (l1 + l2) as int, l3 as int);
    assert(s.skip((l1 + l2 + l3) as int) == ck_t4(c, rest));
    assert(spec_parse_ck_a(s) == Some(((c.visited, c.results, c.stats), (l1 + l2 + l3) as nat)));
    assert(s.len() == l1 + l2 + l3 + ck_t4(c, rest).len());
}

/// The second half of a checkpoint text reads back exactly.
#[verifier::rlimit(100)]
#[verifier::spinoff_prover]
proof fn lemma_parse_ck_b_complete(c: CheckpointView, rest: Seq<char>)
    ensures
        ({
            let s = ck_t4(c, rest);
            let consumed = s.len() - rest.len();
            spec_parse_ck_b(s) == Some(
                ((c.timestamp, c.base_url, c.config_hash), consumed as nat),
            ) && s.skip(consumed) == rest
        }),
{
    reveal(ck_t4);
    reveal(ck_t5);
    reveal(ck_t6);
    proof_ck_lits();
    let s = ck_t4(c, rest);
    let l4 = ",\"timestamp\":"@.len() + spec_dec_i64(c.timestamp as int).len();
    let l5 = ",\"base_url\":"@.len() + spec_json_string(c.base_url).len();
    let l6 = ",\"config_hash\":"@.len() + spec_dec(c.config_hash as nat).len();
    lemma_peel_i64(s, ",\"timestamp\":"@, c.timestamp, ck_t5(c, rest));
    lemma_peel_str(ck_t5(c, rest), ",\"base_url\":"@, c.base_url, ck_t6(c, rest));
    lemma_peel_u64(ck_t6(c, rest), ",\"config_hash\":"@, c.config_hash, "}"@ + rest);
    assert(s.skip(l4 as int) == ck_t5(c, rest));
    lemma_skip_skip(s, l4 as int, l5 as int);
    assert(s.skip((l4 + l5) as int) == ck_t6(c, rest));
    lemma_skip_skip(s, (l4 + l5) as int, l6 as int);
    assert(s.skip((l4 + l5 + l6) as int) == "}"@ + rest);
    assert(("}"@ + rest).first() == '}');
    assert(("}"@ + rest).skip(1) =~= rest);
    assert(s[(l4 + l5 + l6) as int] == '}') by {
        assert(s.skip((l4 + l5 + l6) as int).first() == '}');
    }
    lemma_skip_skip(s, (l4 + l5 + l6) as int, 1);
    assert(spec_parse_ck_b(s) == Some(
        ((c.timestamp, c.base_url, c.config_hash), (l4 + l5 + l6 + 1) as nat),
    ));
    assert(s.len() == l4 + l5 + l6 + 1 + rest.len());
}

/// The nested checkpoint tails shrink from the outside in.
proof fn lemma_ck_lens(c: CheckpointView, rest: Seq<char>)
    ensures
        ck_t1(c, rest).len() >= ck_t4(c, rest).len() >= rest.len(),
{
    reveal(ck_t1);
    reveal(ck_t2);
    reveal(ck_t3);
    reveal(ck_t4);
    reveal(ck_t5);
    reveal(ck_t6);
}

/// A stored snapshot reads back as the same snapshot: reading what
/// `to_json` wrote yields the value it was given, for any snapshot.
#[verifier::rlimit(100)]
#[verifier::spinoff_prover]
pub proof fn lemma_checkpoint_round_trip(c: CheckpointView)
    ensures
        spec_checkpoint_from_text(spec_encode_checkpoint(c)) == Some(c),
{
    let rest = Seq::<char>::empty();
    lemma_ck_rest(c, rest);
    lemma_ck_lens(c, rest);
    let s = ck_t1(c, rest);
    lemma_parse_ck_a_complete(c, rest);
    lemma_parse_ck_b_complete(c, rest);
    assert(s.skip(s.len() - ck_t4(c, rest).len()) == ck_t4(c, rest));
    assert(spec_parse_ck_a(s) == Some(
        ((c.visited, c.results, c.stats), (s.len() - ck_t4(c, rest).len()) as nat),
    ));
    assert(spec_parse_ck_b(ck_t4(c, rest)) == Some(
        (
            (c.timestamp, c.base_url, c.config_hash),
            (ck_t4(c, rest).len() - rest.len()) as nat,
        ),
    ));
    assert(spec_parse_checkpoint(s) == Some((c, (s.len() - rest.len()) as nat)));
    assert(spec_encode_checkpoint(c) + rest =~= spec_encode_checkpoint(c));
}

/// Whether a snapshot belongs to the crawl with this base URL and
/// fingerprint.
pub open spec fn spec_accept(base: Seq<char>, hash: u64, c: CheckpointView) -> bool {
    c.base_url == base && c.config_hash == hash
}

/// A snapshot whose configuration fingerprint differs from the running
/// crawl's is never accepted for resume, whatever else it holds.
pub proof fn lemma_mismatched_fingerprint_rejected(base: Seq<char>, hash: u64, c: CheckpointView)
    requires
        c.config_hash != hash,
    ensures
        !spec_accept(base, hash, c),
{
}

/// Decides when to save and validates what is loaded. File I/O stays with
/// the caller: `save` hands back the text to store, `try_load` takes the
/// stored text (or nothing, when no file exists).
#[derive(Clone, Debug)]
pub struct CheckpointManager {
    /// Where the caller stores the snapshot.
    pub output_dir: String,
    /// Fingerprint of the running crawl's configuration.
    pub config_hash: u64,
    /// Base URL of the running crawl.
    pub base_url: String,
    /// When the last snapshot was taken, if any.
    pub last_save: Option<i64>,
    /// Seconds between snapshots.
    pub save_interval_secs: u64,
}

impl CheckpointManager {
    /// A manager that has not saved yet.
    pub fn new(output_dir: String, base_url: String, config_hash: u64, save_interval_secs: u64) -> (m: Self)
        ensures
            m.output_dir == output_dir,
            m.base_url == base_url,
            m.config_hash == config_hash,
            m.last_save is None,
            m.save_interval_secs == save_interval_secs,
    {
        CheckpointManager { output_dir, config_hash, base_url, last_save: None, save_interval_secs }
    }

    /// Whether it is time to save: never saved yet, or at least the save
    /// interval has passed since the last save.
    pub fn should_save(&self, now_ms: i64) -> (r: bool)
        ensures
            r == (match self.last_save {
                None => true,
                Some(last) => now_ms - last >= self.save_interval_secs * 1000,
            }),
    {
        match self.last_save {
            None => true,
            Some(last) => {
                let elapsed: i128 = (now_ms as i128) - (last as i128);
                elapsed >= (self.save_interval_secs as i128) * 1000
            },
        }
    }

    /// Takes a snapshot of the given state: returns the JSON text to store
    /// and remembers the save time.
    pub fn save(
        &mut self,
        visited: Vec<String>,
        results: Vec<PageResult>,
        stats: CrawlStats,
        now_ms: i64,
    ) -> (r: String)
        ensures
            final(self).last_save == Some(now_ms),
            final(self).output_dir == old(self).output_dir,
            final(self).base_url == old(self).base_url,
            final(self).config_hash == old(self).config_hash,
            final(self).save_interval_secs == old(self).save_interval_secs,
            r@ == spec_encode_checkpoint(
                CheckpointView {
                    visited: visited.deep_view(),
                    results: pages_view(results@),
                    stats,
                    timestamp: now_ms,
                    base_url: old(self).base_url@,
                    config_hash: old(self).config_hash,
                },
            ),
    {
        let checkpoint = Checkpoint {
            visited,
            results,
            stats,
            timestamp: now_ms,
            base_url: clone_string(&self.base_url),
            config_hash: self.config_hash,
        };
        self.last_save = Some(now_ms);
        checkpoint.to_json()
    }

    /// Accepts a stored snapshot text: yields the snapshot exactly when the
    /// text exists, is one well-formed checkpoint object, and belongs to
    /// this crawl (same base URL and configuration fingerprint).
    pub fn try_load(&self, content: Option<&str>) -> (r: Option<Checkpoint>)
        ensures
            match content {
                None => r is None,
                Some(text) => match spec_checkpoint_from_text(text@) {
                    None => r is None,
                    Some(v) => if spec_accept(self.base_url@, self.config_hash, v) {
                        r matches Some(c) && checkpoint_view(c) == v
                    } else {
                        r is None
                    },
                },
            },
    {
        let text = match content {
            Some(t) => t,
            None => {
                return None;
            },
        };
        let checkpoint = match Checkpoint::from_json(text) {
            Some(c) => c,
            None => {
                return None;
            },
        };
        if checkpoint.is_valid(self.base_url.as_str(), self.config_hash) {
            Some(checkpoint)
        } else {
            None
        }
    }
}

} // verus!

//! Derived summary statistics over the conversation log.
//!
//! The snapshot is recomputed wholesale on each refresh from one read of the
//! log; nothing is updated incrementally.  Totals saturate at the integer
//! ceiling instead of wrapping, so a pathologically large log degrades the
//! statistics rather than corrupting them.

use vstd::prelude::*;
use crate::models::Analytics;
use crate::models::AppError;
use crate::models::ConversationEntry;
use crate::store::load_entries_at;
use crate::time::Timestamp;
use crate::time::now_timestamp;

verus! {

/// Addition capped at the largest 64-bit value.
pub open spec fn sat_add64(a: int, b: int) -> int {
    if a + b > u64::MAX {
        u64::MAX as int
    } else {
        a + b
    }
}

/// Executable saturating addition.
pub fn sat_add(a: u64, b: u64) -> (r: u64)
    ensures
        r == sat_add64(a as int, b as int),
{
    if a > u64::MAX - b {
        u64::MAX
    } else {
        a + b
    }
}

/// Total latency of the batch, in milliseconds, saturating.
pub open spec fn spec_latency_total(s: Seq<ConversationEntry>) -> int
    decreases s.len(),
{
    if s.len() == 0 {
        0
    } else {
        sat_add64(spec_latency_total(s.drop_last()), s.last().response_time_ms as int)
    }
}

/// The mean latency in whole milliseconds; exactly zero for an empty batch.
pub open spec fn spec_avg_latency(s: Seq<ConversationEntry>) -> int {
    if s.len() == 0 {
        0
    } else {
        spec_latency_total(s) / s.len() as int
    }
}

/// The character count one exchange contributes, saturating.
pub open spec fn spec_entry_chars(e: ConversationEntry) -> int {
    sat_add64(e.prompt@.len() as int, e.response@.len() as int)
}

/// Total prompt and response characters of the batch, saturating.
pub open spec fn spec_chars_total(s: Seq<ConversationEntry>) -> int
    decreases s.len(),
{
    if s.len() == 0 {
        0
    } else {
        sat_add64(spec_chars_total(s.drop_last()), spec_entry_chars(s.last()))
    }
}

/// How many exchanges of the batch used the model named `m`.
pub open spec fn spec_model_count(s: Seq<ConversationEntry>, m: Seq<char>) -> int
    decreases s.len(),
{
    if s.len() == 0 {
        0
    } else {
        spec_model_count(s.drop_last(), m) + (if s.last().model_used@ == m {
            1int
        } else {
            0int
        })
    }
}

/// How many exchanges of the batch fall on the local calendar day of
/// `today`.
pub open spec fn spec_today_count(s: Seq<ConversationEntry>, today: Timestamp) -> int
    decreases s.len(),
{
    if s.len() == 0 {
        0
    } else {
        spec_today_count(s.drop_last(), today) + (if s.last().timestamp.spec_same_day(today) {
            1int
        } else {
            0int
        })
    }
}

/// Counts the exchanges that used the model named `m`.
fn count_model(entries: &Vec<ConversationEntry>, m: &String) -> (r: usize)
    ensures
        r == spec_model_count(entries@, m@),
        r <= entries@.len(),
{
    let mut count: usize = 0;
    let mut i: usize = 0;
    while i < entries.len()
        invariant
            i <= entries@.len(),
            count == spec_model_count(entries@.take(i as int), m@),
            count <= i,
        decreases entries@.len() - i,
    {
        proof {
            assert(entries@.take(i + 1).drop_last() =~= entries@.take(i as int));
            assert(entries@.take(i + 1).last() == entries@[i as int]);
        }
        if entries[i].model_used.eq(m) {
            count += 1;
        }
        i += 1;
    }
    proof {
        assert(entries@.take(entries@.len() as int) =~= entries@);
    }
    count
}

/// The most frequent model name of the batch; the empty string for an
/// empty batch, and the first-counted name on a tie.
fn most_used_model(entries: &Vec<ConversationEntry>) -> (r: String)
    ensures
        entries@.len() == 0 ==> r@ == Seq::<char>::empty(),
        entries@.len() > 0 ==> (exists|b: int|
            0 <= b < entries@.len() && r == (#[trigger] entries@[b]).model_used) && (forall|
            j: int,
        |
            0 <= j < entries@.len() ==> spec_model_count(
                entries@,
                (#[trigger] entries@[j]).model_used@,
            ) <= spec_model_count(entries@, r@)),
{
    let mut best_model = String::new();
    let mut best_count: usize = 0;
    let mut i: usize = 0;
    while i < entries.len()
        invariant
            i <= entries@.len(),
            i == 0 ==> best_count == 0 && best_model@ == Seq::<char>::empty(),
            i > 0 ==> (exists|b: int|
                0 <= b < entries@.len() && best_model == (#[trigger] entries@[b]).model_used)
                && best_count == spec_model_count(entries@, best_model@),
            forall|j: int|
                0 <= j < i ==> spec_model_count(entries@, (#[trigger] entries@[j]).model_used@)
                    <= best_count,
        decreases entries@.len() - i,
    {
        let c = count_model(entries, &entries[i].model_used);
        proof {
            if i == 0 {
                lemma_model_count_positive(entries@, i as int);
            }
        }
        if c > best_count {
            best_model = entries[i].model_used.clone();
            best_count = c;
        } else {
            proof {
                if i == 0 {
                    lemma_model_count_positive(entries@, 0);
                    assert(c >= 1);
                    assert(false);
                }
            }
        }
        i += 1;
    }
    best_model
}

/// An occurring model name is counted at least once.
proof fn lemma_model_count_positive(s: Seq<ConversationEntry>, i: int)
    requires
        0 <= i < s.len(),
    ensures
        spec_model_count(s, s[i].model_used@) >= 1,
    decreases s.len(),
{
    if i == s.len() - 1 {
        assert(spec_model_count(s.drop_last(), s[i].model_used@) >= 0) by {
            lemma_model_count_nonneg(s.drop_last(), s[i].model_used@);
        }
    } else {
        lemma_model_count_positive(s.drop_last(), i);
        assert(s.drop_last()[i] == s[i]);
    }
}

/// Counts never go negative.
proof fn lemma_model_count_nonneg(s: Seq<ConversationEntry>, m: Seq<char>)
    ensures
        spec_model_count(s, m) >= 0,
    decreases s.len(),
{
    if s.len() > 0 {
        lemma_model_count_nonneg(s.drop_last(), m);
    }
}

/// Computes the whole snapshot from one batch of exchanges and the current
/// local day.  Every statistic is pinned exactly; the two cache counters
/// are carried for shape only and stay zero.
pub fn compute_snapshot(entries: &Vec<ConversationEntry>, today: Timestamp) -> (r: Analytics)
    requires
        forall|i: int| 0 <= i < entries@.len() ==> (#[trigger] entries@[i]).wf(),
    ensures
        r.total_requests == entries@.len(),
        r.response_time_total_ms == spec_latency_total(entries@),
        r.avg_response_time_ms == spec_avg_latency(entries@),
        r.total_tokens_approx == spec_chars_total(entries@) / 4,
        r.sessions_today == spec_today_count(entries@, today),
        r.sessions_today <= entries@.len(),
        entries@.len() == 0 ==> r.most_used_model@ == Seq::<char>::empty(),
        entries@.len() > 0 ==> (exists|b: int|
            0 <= b < entries@.len() && r.most_used_model == (#[trigger] entries@[b]).model_used)
            && (forall|j: int|
            0 <= j < entries@.len() ==> spec_model_count(
                entries@,
                (#[trigger] entries@[j]).model_used@,
            ) <= spec_model_count(entries@, r.most_used_model@)),
        r.cache_hits == 0,
        r.cache_misses == 0,
{
    let total = entries.len();
    let mut latency_total: u64 = 0;
    let mut chars_total: u64 = 0;
    let mut today_count: usize = 0;
    let mut i: usize = 0;
    while i < total
        invariant
            forall|k: int| 0 <= k < entries@.len() ==> (#[trigger] entries@[k]).wf(),
            total == entries@.len(),
            i <= total,
            latency_total == spec_latency_total(entries@.take(i as int)),
            chars_total == spec_chars_total(entries@.take(i as int)),
            today_count == spec_today_count(entries@.take(i as int), today),
            today_count <= i,
        decreases total - i,
    {
        proof {
            assert(entries@.take(i + 1).drop_last() =~= entries@.take(i as int));
            assert(entries@.take(i + 1).last() == entries@[i as int]);
        }
        latency_total = sat_add(latency_total, entries[i].response_time_ms as u64);
        let prompt_chars = entries[i].prompt.as_str().unicode_len() as u64;
        let response_chars = entries[i].response.as_str().unicode_len() as u64;
        chars_total = sat_add(chars_total, sat_add(prompt_chars, response_chars));
        if entries[i].timestamp.same_day(&today) {
            today_count += 1;
        }
        i += 1;
    }
    proof {
        assert(entries@.take(entries@.len() as int) =~= entries@);
    }
    let avg = if total == 0 {
        0
    } else {
        latency_total / total as u64
    };
    let model = most_used_model(entries);
    Analytics {
        total_requests: total,
        avg_response_time_ms: avg,
        response_time_total_ms: latency_total,
        most_used_model: model,
        total_tokens_approx: chars_total / 4,
        sessions_today: today_count,
        cache_hits: 0,
        cache_misses: 0,
    }
}

/// Recomputes summary statistics from the log at `db_path` on demand.
pub struct AnalyticsEngine {
    pub db_path: String,
}

impl AnalyticsEngine {
    /// An aggregator over the log at `db_path`.
    pub fn new(db_path: String) -> (r: AnalyticsEngine)
        ensures
            r.db_path == db_path,
    {
        AnalyticsEngine { db_path }
    }

    /// One read-only pass over the log: counts, mean latency, the most
    /// frequent model, the rough token estimate and the same-day count,
    /// against the current local day.  An empty log yields the all-zero
    /// snapshot with an empty model name, not an error.
    pub fn get_analytics(&self) -> (r: Result<Analytics, AppError>)
        ensures
            r matches Ok(a) ==> a.cache_hits == 0 && a.cache_misses == 0
                && a.avg_response_time_ms == (if a.total_requests == 0 {
                0int
            } else {
                a.response_time_total_ms as int / a.total_requests as int
            }) && a.sessions_today <= a.total_requests && (a.total_requests == 0
                ==> a.most_used_model@ == Seq::<char>::empty() && a.response_time_total_ms == 0
                && a.total_tokens_approx == 0),
    {
        let entries = match load_entries_at(self.db_path.as_str()) {
            Ok(es) => es,
            Err(e) => {
                return Err(e);
            },
        };
        let today = now_timestamp();
        Ok(compute_snapshot(&entries, today))
    }
}

} // verus!

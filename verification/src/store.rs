//! The durable conversation log and the retrieval over it.
//!
//! `RagSystem` owns the append-only log of exchanges.  Each operation opens
//! the backing store anew, as the surrounding application always did, so the
//! struct itself is only the two locations.  Reading back what was written
//! is verified end to end: rows decode through the verified timestamp
//! parser, and ordering, filtering and capping all happen in verified code.

use vstd::prelude::*;
use crate::db::ConversationRow;
use crate::db::execute_insert;
use crate::db::execute_sql;
use crate::db::fetch_rows;
use crate::db::last_insert_rowid;
use crate::db::open_connection;
use crate::db::sql_error_message;
use crate::models::AppError;
use crate::models::ConversationEntry;
use crate::time::Timestamp;
use crate::time::parse_rfc3339;
use crate::time::spec_compact;
use crate::time::spec_display;
use crate::time::spec_parse_rfc3339;
use crate::textutil::contains_str;
use crate::textutil::first_tokens;
use crate::textutil::spec_first_tokens;
use crate::textutil::dec_digits;
use crate::textutil::spec_contains;

verus! {

/// Converts a backing-store error into the library's error shape.
pub(crate) fn sql_error(e: rusqlite::Error) -> (r: AppError) {
    AppError::new(sql_error_message(&e))
}

/// The durable conversation store: a relational log under
/// `save_directory`, mirrored entry by entry as text artifacts.
#[derive(Clone)]
pub struct RagSystem {
    pub db_path: String,
    pub save_directory: String,
}

impl RagSystem {
    /// Opens (and on first use creates) the log under `save_directory`.
    /// Schema creation is idempotent: running it on every start is safe.
    ///
    /// The caller is responsible for the directory itself existing; creating
    /// it is filesystem work outside this library.
    pub fn new(save_directory: String) -> (r: Result<RagSystem, AppError>)
        ensures
            r matches Ok(s) ==> s.save_directory == save_directory && s.db_path@
                == save_directory@ + "/conversations.db"@,
    {
        let db_path = save_directory.clone().concat("/conversations.db");
        match Self::init_database(db_path.as_str()) {
            Ok(_) => Ok(RagSystem { db_path, save_directory }),
            Err(e) => Err(e),
        }
    }

    /// Creates the two relations when they are absent.  The
    /// `embeddings_cache` relation is reserved for future semantic
    /// retrieval; nothing reads or writes it yet.
    fn init_database(db_path: &str) -> (r: Result<(), AppError>) {
        let conn = match open_connection(db_path) {
            Ok(c) => c,
            Err(e) => {
                return Err(sql_error(e));
            },
        };
        if let Err(e) = execute_sql(
            &conn,
            "CREATE TABLE IF NOT EXISTS conversations (
                id INTEGER PRIMARY KEY AUTOINCREMENT,
                timestamp TEXT NOT NULL,
                prompt TEXT NOT NULL,
                response TEXT NOT NULL,
                model_used TEXT NOT NULL,
                response_time_ms INTEGER NOT NULL,
                file_context TEXT
            )",
        ) {
            return Err(sql_error(e));
        }
        if let Err(e) = execute_sql(
            &conn,
            "CREATE TABLE IF NOT EXISTS embeddings_cache (
                id INTEGER PRIMARY KEY AUTOINCREMENT,
                prompt_hash TEXT UNIQUE NOT NULL,
                prompt TEXT NOT NULL,
                response TEXT NOT NULL,
                similarity_score INTEGER DEFAULT 0
            )",
        ) {
            return Err(sql_error(e));
        }
        Ok(())
    }

    /// Appends one exchange to the durable log.  The record's timestamp is
    /// written in the exact text shape `spec_rfc3339` describes, an absent
    /// file context is stored as the empty string, and the stored entry
    /// comes back with the identifier the log assigned.
    ///
    /// The mirror text artifact is the second half of an append: render it
    /// with `mirror_file_name` and `mirror_file_content` and write it
    /// beside the log.  The two writes are deliberately independent; the
    /// log, not the mirror, is the source of truth.
    pub fn save_conversation(&self, entry: &ConversationEntry) -> (r: Result<
        ConversationEntry,
        AppError,
    >)
        requires
            entry.wf(),
        ensures
            r matches Ok(stored) ==> stored.timestamp == entry.timestamp && stored.prompt
                == entry.prompt && stored.response == entry.response && stored.model_used
                == entry.model_used && stored.response_time_ms == entry.response_time_ms
                && stored.file_context == entry.file_context && stored.wf(),
    {
        let conn = match open_connection(self.db_path.as_str()) {
            Ok(c) => c,
            Err(e) => {
                return Err(sql_error(e));
            },
        };
        let timestamp_text = entry.timestamp.format_rfc3339();
        let empty = String::new();
        let context_text: &String = match &entry.file_context {
            Some(c) => c,
            None => &empty,
        };
        if let Err(e) = execute_insert(
            &conn,
            "INSERT INTO conversations (timestamp, prompt, response, model_used, response_time_ms, file_context)
             VALUES (?1, ?2, ?3, ?4, ?5, ?6)",
            &timestamp_text,
            &entry.prompt,
            &entry.response,
            &entry.model_used,
            entry.response_time_ms,
            context_text,
        ) {
            return Err(sql_error(e));
        }
        let id = last_insert_rowid(&conn);
        let mut stored = entry.duplicate();
        stored.id = id;
        Ok(stored)
    }

    /// The full path of the mirror text artifact for `entry`: named from the
    /// compact timestamp rendering, so artifact names sort chronologically
    /// (`crate::time::lemma_mirror_names_sort` is that claim, proved).
    pub fn mirror_file_name(&self, entry: &ConversationEntry) -> (r: String)
        requires
            entry.wf(),
        ensures
            r@ == self.save_directory@ + "/response_"@ + spec_compact(entry.timestamp)
                + ".txt"@,
    {
        let mut out = self.save_directory.clone();
        out.append("/response_");
        let compact = entry.timestamp.format_compact();
        out.append(compact.as_str());
        out.append(".txt");
        out
    }
}

/// The fixed human-readable rendering of one exchange, as the mirror
/// artifact carries it.
pub open spec fn spec_mirror_content(entry: ConversationEntry) -> Seq<char> {
    "Timestamp: "@ + spec_display(entry.timestamp) + "\nModel: "@ + entry.model_used@
        + "\nResponse Time: "@ + dec_digits(entry.response_time_ms as nat) + "ms\n\nPrompt:\n"@
        + entry.prompt@ + "\n\nResponse:\n"@ + entry.response@ + "\n"@
}

/// Renders the mirror text artifact for one exchange.
pub fn mirror_file_content(entry: &ConversationEntry) -> (r: String)
    requires
        entry.wf(),
    ensures
        r@ == spec_mirror_content(*entry),
{
    let mut out = String::from_str("Timestamp: ");
    let display = entry.timestamp.format_display();
    out.append(display.as_str());
    out.append("\nModel: ");
    out.append(entry.model_used.as_str());
    out.append("\nResponse Time: ");
    crate::textutil::push_u64(&mut out, entry.response_time_ms as u64);
    out.append("ms\n\nPrompt:\n");
    out.append(entry.prompt.as_str());
    out.append("\n\nResponse:\n");
    out.append(entry.response.as_str());
    out.append("\n");
    out
}

/// What the store writes, it reads back: a row carrying the exact
/// timestamp text the store renders, and a sane latency, decodes to the
/// exchange it was written from.  Sub-minute offsets are the one thing the
/// text form cannot carry, so they are excluded.
pub proof fn lemma_stored_row_decodes(row: ConversationRow, ts: Timestamp)
    requires
        ts.wf(),
        ts.offset_seconds % 60 == 0,
        row.timestamp@ == crate::time::spec_rfc3339(ts),
        row.response_time_ms >= 0,
    ensures
        spec_entry_of_row(row) matches Some(e) && e.id == row.id && e.timestamp == ts && e.prompt
            == row.prompt && e.response == row.response && e.model_used == row.model_used
            && e.response_time_ms == row.response_time_ms && e.file_context == (
        if row.file_context@.len() == 0 {
            None
        } else {
            Some(row.file_context)
        }),
{
    crate::time::lemma_rfc3339_roundtrip(ts);
}

/// How one stored row reads back as an exchange: the timestamp text must be
/// exactly what the store writes, and the latency must be non-negative; an
/// empty file context reads back as "none".
pub open spec fn spec_entry_of_row(row: ConversationRow) -> Option<ConversationEntry> {
    match spec_parse_rfc3339(row.timestamp@) {
        Some(ts) => if row.response_time_ms >= 0 {
            Some(ConversationEntry {
                id: row.id,
                timestamp: ts,
                prompt: row.prompt,
                response: row.response,
                model_used: row.model_used,
                response_time_ms: row.response_time_ms,
                file_context: if row.file_context@.len() == 0 {
                    None
                } else {
                    Some(row.file_context)
                },
            })
        } else {
            None
        },
        None => None,
    }
}

/// Decodes one stored row, rejecting anything the store would never have
/// written.
pub fn entry_of_row(row: &ConversationRow) -> (r: Result<ConversationEntry, AppError>)
    ensures
        r matches Ok(e) ==> spec_entry_of_row(*row) == Some(e) && e.wf(),
        r matches Err(_) ==> spec_entry_of_row(*row) is None,
{
    let ts = match parse_rfc3339(row.timestamp.as_str()) {
        Some(ts) => ts,
        None => {
            return Err(AppError::new(String::from_str("invalid timestamp in stored record")));
        },
    };
    if row.response_time_ms < 0 {
        return Err(AppError::new(String::from_str("negative latency in stored record")));
    }
    let file_context = if row.file_context.unicode_len() == 0 {
        None
    } else {
        Some(row.file_context.clone())
    };
    Ok(ConversationEntry {
        id: row.id,
        timestamp: ts,
        prompt: row.prompt.clone(),
        response: row.response.clone(),
        model_used: row.model_used.clone(),
        response_time_ms: row.response_time_ms,
        file_context,
    })
}

/// Decodes a batch of stored rows, in order; one bad row fails the batch,
/// as a corrupted store should.
pub fn entries_from_rows(rows: &Vec<ConversationRow>) -> (r: Result<
    Vec<ConversationEntry>,
    AppError,
>)
    ensures
        r matches Ok(es) ==> es@.len() == rows@.len() && (forall|i: int|
            0 <= i < rows@.len() ==> spec_entry_of_row(rows@[i]) == Some(#[trigger] es@[i])
                && es@[i].wf()),
        r matches Err(_) ==> exists|i: int|
            0 <= i < rows@.len() && spec_entry_of_row(#[trigger] rows@[i]) is None,
{
    let mut out: Vec<ConversationEntry> = Vec::new();
    let mut i: usize = 0;
    while i < rows.len()
        invariant
            i <= rows@.len(),
            out@.len() == i,
            forall|j: int|
                0 <= j < i ==> spec_entry_of_row(rows@[j]) == Some(#[trigger] out@[j])
                    && out@[j].wf(),
        decreases rows@.len() - i,
    {
        match entry_of_row(&rows[i]) {
            Ok(e) => {
                out.push(e);
            },
            Err(err) => {
                proof {
                    assert(spec_entry_of_row(rows@[i as int]) is None);
                }
                return Err(err);
            },
        }
        i += 1;
    }
    Ok(out)
}

/// The sequence is ordered newest first: no later element is newer than an
/// earlier one.
pub open spec fn newest_first(s: Seq<ConversationEntry>) -> bool {
    forall|i: int, j: int|
        #![trigger s[i], s[j]]
        0 <= i <= j < s.len() ==> s[j].timestamp.spec_le(s[i].timestamp)
}

/// Orders a batch of exchanges newest first.  The result is a permutation:
/// nothing is lost, nothing is invented.
pub fn sort_newest_first(entries: &Vec<ConversationEntry>) -> (r: Vec<ConversationEntry>)
    requires
        forall|i: int| 0 <= i < entries@.len() ==> (#[trigger] entries@[i]).wf(),
    ensures
        r@.to_multiset() == entries@.to_multiset(),
        r@.len() == entries@.len(),
        newest_first(r@),
        forall|i: int| 0 <= i < r@.len() ==> (#[trigger] r@[i]).wf(),
{
    broadcast use vstd::seq_lib::group_to_multiset_ensures;

    let mut out: Vec<ConversationEntry> = Vec::new();
    let mut i: usize = 0;
    while i < entries.len()
        invariant
            forall|k: int| 0 <= k < entries@.len() ==> (#[trigger] entries@[k]).wf(),
            i <= entries@.len(),
            out@.len() == i,
            out@.to_multiset() == entries@.take(i as int).to_multiset(),
            newest_first(out@),
            forall|j: int| 0 <= j < out@.len() ==> (#[trigger] out@[j]).wf(),
        decreases entries@.len() - i,
    {
        let e = entries[i].duplicate();
        let ekey = e.timestamp.key();
        let mut idx: usize = 0;
        while idx < out.len() && ekey <= out[idx].timestamp.key()
            invariant
                forall|j: int| 0 <= j < out@.len() ==> (#[trigger] out@[j]).wf(),
                e.wf(),
                ekey == e.timestamp.spec_key(),
                idx <= out@.len(),
                forall|m: int|
                    0 <= m < idx ==> e.timestamp.spec_le((#[trigger] out@[m]).timestamp),
            decreases out@.len() - idx,
        {
            idx += 1;
        }
        let ghost prev = out@;
        out.insert(idx, e);
        proof {
            assert(out@ =~= prev.insert(idx as int, e));
            assert forall|a: int, b: int|
                #![trigger out@[a], out@[b]]
                0 <= a <= b < out@.len() implies out@[b].timestamp.spec_le(
                out@[a].timestamp,
            ) by {
                if a < idx {
                    assert(out@[a] == prev[a]);
                } else if a == idx {
                    assert(out@[a] == e);
                } else {
                    assert(out@[a] == prev[a - 1]);
                }
                if b < idx {
                    assert(out@[b] == prev[b]);
                } else if b == idx {
                    assert(out@[b] == e);
                } else {
                    assert(out@[b] == prev[b - 1]);
                }
            }
            vstd::seq_lib::to_multiset_insert(prev, idx as int, e);
            assert(prev.insert(idx as int, e).to_multiset() == prev.to_multiset().insert(e));
            assert(entries@.take(i + 1) =~= entries@.take(i as int).push(entries@[i as int]));
            vstd::seq_lib::to_multiset_build(entries@.take(i as int), entries@[i as int]);
            assert(entries@.take(i as int).push(entries@[i as int]).to_multiset()
                == entries@.take(i as int).to_multiset().insert(entries@[i as int]));
            assert(out@.to_multiset() == entries@.take(i + 1).to_multiset());
        }
        i += 1;
    }
    proof {
        assert(entries@.take(entries@.len() as int) =~= entries@);
    }
    out
}

/// The smaller of a cap and a length.
pub open spec fn spec_min(a: int, b: int) -> int {
    if a <= b {
        a
    } else {
        b
    }
}

/// The newest `limit` of a batch of exchanges, newest first: some
/// newest-first permutation of the whole batch, cut off after `limit`.
pub fn select_recent(entries: &Vec<ConversationEntry>, limit: usize) -> (r: Vec<
    ConversationEntry,
>)
    requires
        forall|i: int| 0 <= i < entries@.len() ==> (#[trigger] entries@[i]).wf(),
    ensures
        r@.len() == spec_min(limit as int, entries@.len() as int),
        newest_first(r@),
        forall|i: int| 0 <= i < r@.len() ==> (#[trigger] r@[i]).wf(),
        forall|i: int| 0 <= i < r@.len() ==> entries@.contains(#[trigger] r@[i]),
        exists|sorted: Seq<ConversationEntry>|
            #![trigger sorted.to_multiset()]
            sorted.to_multiset() == entries@.to_multiset() && sorted.len() == entries@.len()
                && newest_first(sorted) && r@ == sorted.take(
                spec_min(limit as int, entries@.len() as int),
            ),
{
    broadcast use vstd::seq_lib::group_to_multiset_ensures;

    let mut sorted_vec = sort_newest_first(entries);
    let ghost sorted = sorted_vec@;
    if limit < sorted_vec.len() {
        sorted_vec.truncate(limit);
    }
    proof {
        assert(sorted_vec@ =~= sorted.take(spec_min(limit as int, entries@.len() as int)));
        assert forall|i: int| 0 <= i < sorted_vec@.len() implies entries@.contains(
            #[trigger] sorted_vec@[i],
        ) by {
            assert(sorted[i] == sorted_vec@[i]);
            assert(sorted.contains(sorted[i]));
            vstd::seq_lib::to_multiset_contains(sorted, sorted[i]);
            vstd::seq_lib::to_multiset_contains(entries@, sorted[i]);
            assert(sorted.to_multiset().count(sorted[i]) > 0);
            assert(entries@.to_multiset().count(sorted[i]) > 0);
        }
    }
    sorted_vec
}

/// The views of a batch of keywords.
pub open spec fn spec_keyword_views(keywords: Seq<String>) -> Seq<Seq<char>> {
    keywords.map_values(|s: String| s@)
}

/// The exchange shares vocabulary with the keywords: some keyword occurs in
/// its prompt or in its response.
pub open spec fn spec_entry_matches(e: ConversationEntry, kws: Seq<Seq<char>>) -> bool {
    exists|k: int|
        0 <= k < kws.len() && (spec_contains(e.prompt@, #[trigger] kws[k]) || spec_contains(
            e.response@,
            kws[k],
        ))
}

/// The exchanges of `entries` that share vocabulary with `kws`, in order.
pub open spec fn spec_matching(entries: Seq<ConversationEntry>, kws: Seq<Seq<char>>) -> Seq<
    ConversationEntry,
> {
    entries.filter(|e: ConversationEntry| spec_entry_matches(e, kws))
}

/// Whether one exchange shares vocabulary with any of the keywords.
pub fn entry_matches(e: &ConversationEntry, keywords: &Vec<String>) -> (r: bool)
    ensures
        r == spec_entry_matches(*e, spec_keyword_views(keywords@)),
{
    let ghost kws = spec_keyword_views(keywords@);
    let mut k: usize = 0;
    while k < keywords.len()
        invariant
            k <= keywords@.len(),
            kws == spec_keyword_views(keywords@),
            kws.len() == keywords@.len(),
            forall|m: int|
                0 <= m < k ==> !spec_contains(e.prompt@, #[trigger] kws[m]) && !spec_contains(
                    e.response@,
                    kws[m],
                ),
        decreases keywords@.len() - k,
    {
        proof {
            assert(kws[k as int] == keywords@[k as int]@);
        }
        if contains_str(e.prompt.as_str(), keywords[k].as_str()) {
            return true;
        }
        if contains_str(e.response.as_str(), keywords[k].as_str()) {
            return true;
        }
        k += 1;
    }
    false
}

/// Filtering one more exchange keeps it exactly when it matches.
proof fn lemma_matching_push(s: Seq<ConversationEntry>, x: ConversationEntry, kws: Seq<Seq<char>>)
    ensures
        spec_matching(s.push(x), kws) == (if spec_entry_matches(x, kws) {
            spec_matching(s, kws).push(x)
        } else {
            spec_matching(s, kws)
        }),
{
    broadcast use vstd::prelude::Seq::lemma_filter_push;

}

/// Keeps, in order, the exchanges that share vocabulary with the keywords.
pub fn filter_matching(entries: &Vec<ConversationEntry>, keywords: &Vec<String>) -> (r: Vec<
    ConversationEntry,
>)
    ensures
        r@ == spec_matching(entries@, spec_keyword_views(keywords@)),
        forall|i: int| 0 <= i < r@.len() ==> entries@.contains(#[trigger] r@[i]),
{
    let ghost kws = spec_keyword_views(keywords@);
    let mut out: Vec<ConversationEntry> = Vec::new();
    let mut i: usize = 0;
    proof {
        vstd::prelude::Seq::lemma_filter_len(
            entries@.take(0),
            |e: ConversationEntry| spec_entry_matches(e, kws),
        );
        assert(spec_matching(entries@.take(0), kws) =~= Seq::<ConversationEntry>::empty());
    }
    while i < entries.len()
        invariant
            i <= entries@.len(),
            kws == spec_keyword_views(keywords@),
            out@ == spec_matching(entries@.take(i as int), kws),
            forall|j: int| 0 <= j < out@.len() ==> entries@.contains(#[trigger] out@[j]),
        decreases entries@.len() - i,
    {
        proof {
            assert(entries@.take(i + 1) =~= entries@.take(i as int).push(entries@[i as int]));
            lemma_matching_push(entries@.take(i as int), entries@[i as int], kws);
        }
        if entry_matches(&entries[i], keywords) {
            out.push(entries[i].duplicate());
        }
        i += 1;
    }
    proof {
        assert(entries@.take(entries@.len() as int) =~= entries@);
    }
    out
}


/// Reads every stored exchange back from the log at `db_path`, in whatever
/// order the backing store happens to return rows; the callers order and
/// cap.
pub(crate) fn load_entries_at(db_path: &str) -> (r: Result<Vec<ConversationEntry>, AppError>)
    ensures
        r matches Ok(es) ==> forall|i: int| 0 <= i < es@.len() ==> (#[trigger] es@[i]).wf(),
{
    let conn = match open_connection(db_path) {
        Ok(c) => c,
        Err(e) => {
            return Err(sql_error(e));
        },
    };
    let rows = match fetch_rows(
        &conn,
        "SELECT id, timestamp, prompt, response, model_used, response_time_ms, file_context FROM conversations",
    ) {
        Ok(rows) => rows,
        Err(e) => {
            return Err(sql_error(e));
        },
    };
    entries_from_rows(&rows)
}

impl RagSystem {
    /// The newest `limit` stored exchanges, newest first.  Read-only.
    pub fn query_recent(&self, limit: usize) -> (r: Result<Vec<ConversationEntry>, AppError>)
        ensures
            r matches Ok(es) ==> newest_first(es@) && es@.len() <= limit && (forall|i: int|
                0 <= i < es@.len() ==> (#[trigger] es@[i]).wf()),
    {
        let entries = match load_entries_at(self.db_path.as_str()) {
            Ok(es) => es,
            Err(e) => {
                return Err(e);
            },
        };
        Ok(select_recent(&entries, limit))
    }

    /// The newest `limit` stored exchanges whose prompt or response
    /// contains one of `keywords`, newest first.  With no keywords the
    /// result is empty and the backing store is not even consulted.
    /// Read-only.
    pub fn query_matching(&self, keywords: &Vec<String>, limit: usize) -> (r: Result<
        Vec<ConversationEntry>,
        AppError,
    >)
        ensures
            keywords@.len() == 0 ==> (r matches Ok(es) && es@.len() == 0),
            r matches Ok(es) ==> newest_first(es@) && es@.len() <= limit && (forall|i: int|
                0 <= i < es@.len() ==> spec_entry_matches(
                    #[trigger] es@[i],
                    spec_keyword_views(keywords@),
                ) && es@[i].wf()),
    {
        if keywords.len() == 0 {
            return Ok(Vec::new());
        }
        let entries = match load_entries_at(self.db_path.as_str()) {
            Ok(es) => es,
            Err(e) => {
                return Err(e);
            },
        };
        let matching = filter_matching(&entries, keywords);
        proof {
            assert forall|i: int| 0 <= i < matching@.len() implies (#[trigger] matching@[i]).wf()
                && spec_entry_matches(matching@[i], spec_keyword_views(keywords@)) by {
                let ghost kws = spec_keyword_views(keywords@);
                vstd::prelude::Seq::lemma_filter_pred(
                    entries@,
                    |e: ConversationEntry| spec_entry_matches(e, kws),
                    i,
                );
                assert(entries@.contains(matching@[i]));
                let j = choose|j: int| 0 <= j < entries@.len() && entries@[j] == matching@[i];
                assert(entries@[j].wf());
            }
        }
        let selected = select_recent(&matching, limit);
        proof {
            assert forall|i: int| 0 <= i < selected@.len() implies spec_entry_matches(
                #[trigger] selected@[i],
                spec_keyword_views(keywords@),
            ) by {
                assert(matching@.contains(selected@[i]));
                let j = choose|j: int| 0 <= j < matching@.len() && matching@[j] == selected@[i];
                assert(spec_entry_matches(matching@[j], spec_keyword_views(keywords@)));
            }
        }
        Ok(selected)
    }

    /// The cheap lexical retrieval: the query's first three
    /// whitespace-separated words are the keywords, matched as substrings
    /// against stored prompts and responses; newest matches first, capped
    /// at `limit`.  An empty query yields an empty result, not an error.
    pub fn find_similar_responses(&self, prompt: &str, limit: usize) -> (r: Result<
        Vec<ConversationEntry>,
        AppError,
    >)
        ensures
            spec_first_tokens(prompt@, 3).len() == 0 ==> (r matches Ok(es) && es@.len() == 0),
            r matches Ok(es) ==> newest_first(es@) && es@.len() <= limit && (forall|i: int|
                0 <= i < es@.len() ==> spec_entry_matches(
                    #[trigger] es@[i],
                    spec_first_tokens(prompt@, 3),
                ) && es@[i].wf()),
    {
        let keywords = first_tokens(prompt, 3);
        proof {
            assert(spec_keyword_views(keywords@) == spec_first_tokens(prompt@, 3));
        }
        self.query_matching(&keywords, limit)
    }

    /// Prefixes `current_prompt` with a labelled rendering of up to two
    /// retrieved exchanges, in the order received.  With no suggestions the
    /// prompt comes back unchanged: assembly is the identity there.
    pub fn create_rag_context(&self, suggestions: &[ConversationEntry], current_prompt: &str) -> (r:
        String)
        ensures
            r@ == spec_rag_context(suggestions@, current_prompt@),
            suggestions@.len() == 0 ==> r@ == current_prompt@,
    {
        assemble_rag_context(suggestions, current_prompt)
    }
}

/// Prefixes `current_prompt` with a labelled rendering of up to two
/// retrieved exchanges, in the order received; the identity on the prompt
/// when there are none.
pub fn assemble_rag_context(suggestions: &[ConversationEntry], current_prompt: &str) -> (r:
    String)
    ensures
        r@ == spec_rag_context(suggestions@, current_prompt@),
        suggestions@.len() == 0 ==> r@ == current_prompt@,
{
    if suggestions.len() == 0 {
        return current_prompt.to_owned();
    }
    let mut out = entry_block(&suggestions[0]);
    if suggestions.len() >= 2 {
        out.append("\n");
        let second = entry_block(&suggestions[1]);
        out.append(second.as_str());
    }
    out.append("\n\nCurrent question: ");
    out.append(current_prompt);
    out
}

/// The labelled question/answer rendering of one retrieved exchange.
pub open spec fn spec_entry_block(e: ConversationEntry) -> Seq<char> {
    "Previous context:\nQ: "@ + e.prompt@ + "\nA: "@ + e.response@ + "\n"@
}

/// What context assembly produces: the input itself when there is nothing
/// to add, else up to two newline-separated blocks followed by the input.
pub open spec fn spec_rag_context(suggestions: Seq<ConversationEntry>, cur: Seq<char>) -> Seq<
    char,
> {
    if suggestions.len() == 0 {
        cur
    } else if suggestions.len() == 1 {
        spec_entry_block(suggestions[0]) + "\n\nCurrent question: "@ + cur
    } else {
        spec_entry_block(suggestions[0]) + "\n"@ + spec_entry_block(suggestions[1])
            + "\n\nCurrent question: "@ + cur
    }
}

/// Renders one retrieved exchange as a labelled question/answer block.
fn entry_block(e: &ConversationEntry) -> (r: String)
    ensures
        r@ == spec_entry_block(*e),
{
    let mut out = String::from_str("Previous context:\nQ: ");
    out.append(e.prompt.as_str());
    out.append("\nA: ");
    out.append(e.response.as_str());
    out.append("\n");
    out
}

} // verus!

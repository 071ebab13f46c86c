//! Aggregation and queries over entries that were parsed before: severity
//! counts, text search, level filter.
use vstd::prelude::*;
use vstd::std_specs::iter::IteratorSpec;
use crate::entry::{entry_views, EntryView, LogEntry};
use crate::text::{chars_of, contains, contains_text, same_text, texts};

verus! {

/// The severity buckets of the statistics.
#[derive(Clone, Copy, Debug, PartialEq, Eq, Structural)]
pub enum Bucket {
    Info,
    Warn,
    Error,
    Debug,
    Trace,
}

/// Counts of entries: all of them, and those of each bucket.
#[derive(Clone, Copy, Debug, PartialEq, Eq, Structural)]
pub struct LogStats {
    pub total: usize,
    pub info: usize,
    pub warn: usize,
    pub error: usize,
    pub debug: usize,
    pub trace: usize,
}

/// The bucket of a level: `WARNING` counts as a warning and `FATAL` as an
/// error. A level outside the vocabulary has no bucket.
pub open spec fn bucket_of(level: Seq<char>) -> Option<Bucket> {
    if level == "INFO"@ {
        Some(Bucket::Info)
    } else if level == "WARN"@ || level == "WARNING"@ {
        Some(Bucket::Warn)
    } else if level == "ERROR"@ || level == "FATAL"@ {
        Some(Bucket::Error)
    } else if level == "DEBUG"@ {
        Some(Bucket::Debug)
    } else if level == "TRACE"@ {
        Some(Bucket::Trace)
    } else {
        None
    }
}

/// The level is one of the seven words of the severity vocabulary.
pub open spec fn in_vocabulary(level: Seq<char>) -> bool {
    ||| level == "ERROR"@
    ||| level == "WARN"@
    ||| level == "WARNING"@
    ||| level == "INFO"@
    ||| level == "DEBUG"@
    ||| level == "TRACE"@
    ||| level == "FATAL"@
}

/// The number of entries whose level falls in `bucket`.
pub open spec fn tally(entries: Seq<EntryView>, bucket: Bucket) -> nat
    decreases entries.len(),
{
    if entries.len() == 0 {
        0
    } else {
        tally(entries.drop_last(), bucket) + if bucket_of(entries.last().level) == Some(bucket) {
            1nat
        } else {
            0nat
        }
    }
}

/// The sum of the five bucket counts.
pub open spec fn bucketed(entries: Seq<EntryView>) -> nat {
    tally(entries, Bucket::Info) + tally(entries, Bucket::Warn) + tally(entries, Bucket::Error)
        + tally(entries, Bucket::Debug) + tally(entries, Bucket::Trace)
}

/// The five bucket counts never sum to more than the number of entries, and
/// sum to exactly that number when every level is in the vocabulary.
pub proof fn lemma_buckets_within_total(entries: Seq<EntryView>)
    ensures
        bucketed(entries) <= entries.len(),
        (forall|i: int| 0 <= i < entries.len() ==> in_vocabulary(#[trigger] entries[i].level))
            ==> bucketed(entries) == entries.len(),
    decreases entries.len(),
{
    if entries.len() > 0 {
        let front = entries.drop_last();
        lemma_buckets_within_total(front);
        if forall|i: int| 0 <= i < entries.len() ==> in_vocabulary(#[trigger] entries[i].level) {
            assert forall|i: int| 0 <= i < front.len() implies in_vocabulary(
                #[trigger] front[i].level,
            ) by {
                assert(front[i] == entries[i]);
            }
            assert(in_vocabulary(entries[entries.len() - 1].level));
        }
    }
}

/// The bucket of a level.
pub fn bucket(level: &str) -> (out: Option<Bucket>)
    ensures
        out == bucket_of(level@),
{
    if same_text(level, "INFO") {
        Some(Bucket::Info)
    } else if same_text(level, "WARN") || same_text(level, "WARNING") {
        Some(Bucket::Warn)
    } else if same_text(level, "ERROR") || same_text(level, "FATAL") {
        Some(Bucket::Error)
    } else if same_text(level, "DEBUG") {
        Some(Bucket::Debug)
    } else if same_text(level, "TRACE") {
        Some(Bucket::Trace)
    } else {
        None
    }
}

/// Counts the entries, in all and per bucket.
pub fn get_log_stats(entries: Vec<LogEntry>) -> (stats: LogStats)
    ensures
        stats.total == entries.len(),
        stats.info == tally(entry_views(entries@), Bucket::Info),
        stats.warn == tally(entry_views(entries@), Bucket::Warn),
        stats.error == tally(entry_views(entries@), Bucket::Error),
        stats.debug == tally(entry_views(entries@), Bucket::Debug),
        stats.trace == tally(entry_views(entries@), Bucket::Trace),
        stats.info + stats.warn + stats.error + stats.debug + stats.trace <= stats.total,
{
    let mut stats = LogStats { total: entries.len(), info: 0, warn: 0, error: 0, debug: 0, trace: 0 };
    let ghost all = entry_views(entries@);
    let mut i: usize = 0;
    assert(all.take(0) == Seq::<EntryView>::empty());
    while i < entries.len()
        invariant
            i <= entries.len(),
            all == entry_views(entries@),
            stats.total == entries.len(),
            stats.info == tally(all.take(i as int), Bucket::Info),
            stats.warn == tally(all.take(i as int), Bucket::Warn),
            stats.error == tally(all.take(i as int), Bucket::Error),
            stats.debug == tally(all.take(i as int), Bucket::Debug),
            stats.trace == tally(all.take(i as int), Bucket::Trace),
        decreases entries.len() - i,
    {
        proof {
            assert(all.take(i + 1).drop_last() == all.take(i as int));
            assert(all.take(i + 1).last() == entries@[i as int]@);
            lemma_buckets_within_total(all.take(i as int));
        }
        match bucket(entries[i].level.as_str()) {
            Some(Bucket::Info) => {
                stats.info += 1;
            },
            Some(Bucket::Warn) => {
                stats.warn += 1;
            },
            Some(Bucket::Error) => {
                stats.error += 1;
            },
            Some(Bucket::Debug) => {
                stats.debug += 1;
            },
            Some(Bucket::Trace) => {
                stats.trace += 1;
            },
            None => {},
        }
        i += 1;
    }
    proof {
        assert(all.take(entries.len() as int) == all);
        lemma_buckets_within_total(all);
    }
    stats
}

/// What `str::to_lowercase` makes of a text.
pub uninterp spec fn lowercase(text: Seq<char>) -> Seq<char>;

/// `str::to_lowercase` maps a text to its lower-case form by the Unicode
/// rules, which depend on the text alone.
pub assume_specification[ str::to_lowercase ](s: &str) -> (out: String)
    ensures
        out@ == lowercase(s@),
;

/// Whether an entry answers a query: the query, in lower case, occurs in the
/// lower-case form of the message, of the level or of the timestamp.
pub open spec fn answers(entry: EntryView, query: Seq<char>) -> bool {
    let needle = lowercase(query);
    ||| contains_text(lowercase(entry.message), needle)
    ||| contains_text(lowercase(entry.level), needle)
    ||| match entry.timestamp {
        Some(stamp) => contains_text(lowercase(stamp), needle),
        None => false,
    }
}

/// The test that a search with `query` applies to each entry.
pub open spec fn search_test(query: Seq<char>) -> spec_fn(LogEntry) -> bool {
    |entry: LogEntry| answers(entry@, query)
}

/// The entries that a search keeps: all of them for the empty query, else
/// those that answer the query, in their order.
pub open spec fn search_result(entries: Seq<LogEntry>, query: Seq<char>) -> Seq<LogEntry> {
    if query.len() == 0 {
        entries
    } else {
        entries.filter(search_test(query))
    }
}

/// Whether `text`, in lower case, holds `needle`.
fn lowered_contains(text: &str, needle: &Vec<char>) -> (found: bool)
    ensures
        found == contains_text(lowercase(text@), needle@),
{
    let lowered = text.to_lowercase();
    let hay = chars_of(lowered.as_str());
    contains(&hay, needle)
}

/// Whether `entry` answers the query whose lower-case form is `needle`.
fn entry_answers(entry: &LogEntry, needle: &Vec<char>, Ghost(query): Ghost<Seq<char>>) -> (found:
    bool)
    requires
        needle@ == lowercase(query),
    ensures
        found == answers(entry@, query),
{
    lowered_contains(entry.message.as_str(), needle) || lowered_contains(
        entry.level.as_str(),
        needle,
    ) || match &entry.timestamp {
        Some(stamp) => lowered_contains(stamp.as_str(), needle),
        None => false,
    }
}

/// Keeps the entries that answer `query`, without regard to case. The empty
/// query keeps every entry.
pub fn search_logs(entries: Vec<LogEntry>, query: String) -> (found: Vec<LogEntry>)
    ensures
        found@ == search_result(entries@, query@),
        query@.len() == 0 ==> found@ == entries@,
{
    if query.as_str().is_empty() {
        return entries;
    }
    let lowered = query.as_str().to_lowercase();
    let needle = chars_of(lowered.as_str());
    let ghost all = entries@;
    let ghost test = search_test(query@);
    let mut found: Vec<LogEntry> = Vec::new();
    proof {
        reveal(Seq::filter);
        assert(all.take(0) == Seq::<LogEntry>::empty());
    }
    for entry in it: entries
        invariant
            it.seq() == all,
            needle@ == lowercase(query@),
            test == search_test(query@),
            found@ == all.take(it.index() as int).filter(test),
    {
        proof {
            reveal(Seq::filter);
            let next = all.take(it.index() + 1);
            assert(next.drop_last() == all.take(it.index() as int));
            assert(next.last() == entry);
        }
        if entry_answers(&entry, &needle, Ghost(query@)) {
            found.push(entry);
        }
    }
    assert(all.take(all.len() as int) == all);
    found
}

/// The test that a level filter applies to each entry.
pub open spec fn level_test(levels: Seq<Seq<char>>) -> spec_fn(LogEntry) -> bool {
    |entry: LogEntry| levels.contains(entry.level@)
}

/// The entries that a level filter keeps: all of them when no level is given,
/// else those whose level is among the given ones, in their order.
pub open spec fn filter_result(entries: Seq<LogEntry>, levels: Seq<Seq<char>>) -> Seq<LogEntry> {
    if levels.len() == 0 {
        entries
    } else {
        entries.filter(level_test(levels))
    }
}

/// Whether `level` is among `levels`.
pub fn level_listed(levels: &Vec<String>, level: &str) -> (found: bool)
    ensures
        found == texts(levels@).contains(level@),
{
    let mut i: usize = 0;
    while i < levels.len()
        invariant
            i <= levels.len(),
            forall|k: int| 0 <= k < i ==> texts(levels@)[k] != level@,
        decreases levels.len() - i,
    {
        if same_text(levels[i].as_str(), level) {
            assert(texts(levels@)[i as int] == level@);
            return true;
        }
        i += 1;
    }
    false
}

/// Keeps the entries whose level is one of `levels`. No level at all means no
/// filter: every entry is kept.
pub fn filter_by_level(entries: Vec<LogEntry>, levels: Vec<String>) -> (kept: Vec<LogEntry>)
    ensures
        kept@ == filter_result(entries@, texts(levels@)),
        levels@.len() == 0 ==> kept@ == entries@,
{
    if levels.len() == 0 {
        return entries;
    }
    let ghost all = entries@;
    let ghost test = level_test(texts(levels@));
    let mut kept: Vec<LogEntry> = Vec::new();
    proof {
        reveal(Seq::filter);
        assert(all.take(0) == Seq::<LogEntry>::empty());
    }
    for entry in it: entries
        invariant
            it.seq() == all,
            test == level_test(texts(levels@)),
            kept@ == all.take(it.index() as int).filter(test),
    {
        proof {
            reveal(Seq::filter);
            let next = all.take(it.index() + 1);
            assert(next.drop_last() == all.take(it.index() as int));
            assert(next.last() == entry);
        }
        if level_listed(&levels, entry.level.as_str()) {
            kept.push(entry);
        }
    }
    assert(all.take(all.len() as int) == all);
    kept
}

} // verus!

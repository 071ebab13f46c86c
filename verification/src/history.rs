//! The list of recently opened files: most recent first, one item per path,
//! at most twenty items.
use vstd::prelude::*;
use vstd::std_specs::iter::IteratorSpec;
use crate::file::{file_name_of, fits_file_name, unknown_time};
use crate::text::same_text;

verus! {

/// One recently opened file.
pub struct HistoryItem {
    pub path: String,
    /// When the file was opened, as text, or `Unknown`.
    pub accessed_at: String,
    pub file_size: u64,
    pub file_name: String,
}

/// The largest number of items that the history keeps.
pub const HISTORY_LIMIT: usize = 20;

/// Why a history document could not be used.
#[derive(Clone, Copy, Debug, PartialEq, Eq, Structural)]
pub enum HistoryError {
    /// The document has neither the current nor the earlier shape.
    Undecodable,
}

impl HistoryError {
    /// The message for the user.
    pub fn message(&self) -> (text: String)
        ensures
            text@ == "Failed to parse history file"@,
    {
        "Failed to parse history file".to_owned()
    }
}

/// The test that keeps the items of other paths than `path`.
pub open spec fn other_path(path: Seq<char>) -> spec_fn(HistoryItem) -> bool {
    |item: HistoryItem| item.path@ != path
}

/// The first `limit` elements of `items`, or all of them if there are fewer.
pub open spec fn at_most<A>(items: Seq<A>, limit: int) -> Seq<A> {
    if items.len() <= limit {
        items
    } else {
        items.take(limit)
    }
}

/// The history after `item` was opened: the item first, then the earlier
/// items of other paths in their order, cut to the limit.
pub open spec fn recorded(history: Seq<HistoryItem>, item: HistoryItem) -> Seq<HistoryItem> {
    at_most(seq![item] + history.filter(other_path(item.path@)), HISTORY_LIMIT as int)
}

/// No two items have the same path.
pub open spec fn distinct_paths(history: Seq<HistoryItem>) -> bool {
    forall|i: int, j: int| 0 <= i < j < history.len() ==> history[i].path@ != history[j].path@
}

/// Filtering keeps the paths distinct.
proof fn lemma_filter_keeps_distinct(history: Seq<HistoryItem>, test: spec_fn(HistoryItem) -> bool)
    requires
        distinct_paths(history),
    ensures
        distinct_paths(history.filter(test)),
        forall|k: int|
            0 <= k < history.filter(test).len() ==> history.contains(
                #[trigger] history.filter(test)[k],
            ) && test(history.filter(test)[k]),
    decreases history.len(),
{
    reveal(Seq::filter);
    if history.len() > 0 {
        let front = history.drop_last();
        assert(distinct_paths(front));
        lemma_filter_keeps_distinct(front, test);
        let kept = front.filter(test);
        assert forall|k: int| 0 <= k < kept.len() implies history.contains(#[trigger] kept[k])
            && kept[k].path@ != history.last().path@ by {
            let at = choose|at: int| 0 <= at < front.len() && front[at] == kept[k];
            assert(history[at] == kept[k]);
        }
        assert(history[history.len() - 1] == history.last());
    }
}

/// The recorded history starts with the opened item, holds at most
/// `HISTORY_LIMIT` items, and holds each path once if the earlier history did.
pub proof fn lemma_recorded(history: Seq<HistoryItem>, item: HistoryItem)
    ensures
        recorded(history, item).len() >= 1,
        recorded(history, item).len() <= HISTORY_LIMIT,
        recorded(history, item)[0] == item,
        distinct_paths(history) ==> distinct_paths(recorded(history, item)),
{
    let kept = history.filter(other_path(item.path@));
    let all = seq![item] + kept;
    if distinct_paths(history) {
        lemma_filter_keeps_distinct(history, other_path(item.path@));
        assert forall|i: int, j: int| 0 <= i < j < all.len() implies all[i].path@
            != all[j].path@ by {
            assert(all[j] == kept[j - 1]);
            if i > 0 {
                assert(all[i] == kept[i - 1]);
            }
        }
    }
}

/// Records that `item` was opened.
pub fn record_access(history: Vec<HistoryItem>, item: HistoryItem) -> (out: Vec<HistoryItem>)
    ensures
        out@ == recorded(history@, item),
        1 <= out.len() <= HISTORY_LIMIT,
        out[0] == item,
{
    let path = item.path.clone();
    let ghost all = history@;
    let ghost test = other_path(item.path@);
    let mut out: Vec<HistoryItem> = Vec::new();
    out.push(item);
    proof {
        reveal(Seq::filter);
        assert(all.take(0) == Seq::<HistoryItem>::empty());
        assert(out@ == seq![item] + all.take(0).filter(test));
    }
    for earlier in it: history
        invariant
            it.seq() == all,
            path@ == item.path@,
            test == other_path(item.path@),
            out@ == at_most(
                seq![item] + all.take(it.index() as int).filter(test),
                HISTORY_LIMIT as int,
            ),
    {
        proof {
            reveal(Seq::filter);
            let next = all.take(it.index() + 1);
            assert(next.drop_last() == all.take(it.index() as int));
            assert(next.last() == earlier);
            let before = seq![item] + all.take(it.index() as int).filter(test);
            if test(earlier) {
                assert(seq![item] + next.filter(test) == before.push(earlier));
                if before.len() >= HISTORY_LIMIT {
                    assert(before.push(earlier).take(HISTORY_LIMIT as int) == before.take(
                        HISTORY_LIMIT as int,
                    ));
                }
            }
        }
        if out.len() < HISTORY_LIMIT && !same_text(earlier.path.as_str(), path.as_str()) {
            out.push(earlier);
        }
    }
    proof {
        assert(all.take(all.len() as int) == all);
        lemma_recorded(all, item);
    }
    out
}

/// The size to record for a file whose size may be unknown.
pub open spec fn size_or_zero(size: Option<u64>) -> u64 {
    match size {
        Some(n) => n,
        None => 0,
    }
}

impl HistoryItem {
    /// The item for a file opened at the given time. The file name is the last
    /// component of the path as the platform sees it; an unknown size counts
    /// as 0.
    pub fn opened(path: String, accessed_at: String, size: Option<u64>) -> (item: HistoryItem)
        ensures
            item.path@ == path@,
            item.accessed_at@ == accessed_at@,
            item.file_size == size_or_zero(size),
            fits_file_name(item.file_name@, path@),
    {
        let file_name = file_name_of(path.as_str());
        let file_size = match size {
            Some(n) => n,
            None => 0,
        };
        HistoryItem { path, accessed_at, file_size, file_name }
    }

    /// The item for a path of a history in the earlier shape, which held paths
    /// only: the time of access is `Unknown`.
    pub fn from_legacy(path: String, size: Option<u64>) -> (item: HistoryItem)
        ensures
            item.path@ == path@,
            item.accessed_at@ == unknown_time(),
            item.file_size == size_or_zero(size),
            fits_file_name(item.file_name@, path@),
    {
        HistoryItem::opened(path, "Unknown".to_owned(), size)
    }
}

/// The item at position `i` is the upgrade of the legacy record at `i`.
pub open spec fn upgraded(items: Seq<HistoryItem>, records: Seq<(String, Option<u64>)>) -> bool {
    &&& items.len() == records.len()
    &&& forall|i: int|
        0 <= i < items.len() ==> {
            &&& (#[trigger] items[i]).path@ == records[i].0@
            &&& items[i].accessed_at@ == unknown_time()
            &&& items[i].file_size == size_or_zero(records[i].1)
            &&& fits_file_name(items[i].file_name@, records[i].0@)
        }
}

/// Upgrades a history in the earlier shape: one item per path, in order, each
/// with the size that was found for it.
pub fn upgrade_legacy(records: Vec<(String, Option<u64>)>) -> (items: Vec<HistoryItem>)
    ensures
        upgraded(items@, records@),
{
    let ghost all = records@;
    let mut items: Vec<HistoryItem> = Vec::new();
    for record in it: records
        invariant
            it.seq() == all,
            upgraded(items@, all.take(it.index() as int)),
    {
        let item = HistoryItem::from_legacy(record.0, record.1);
        items.push(item);
    }
    assert(all.take(all.len() as int) == all);
    items
}

/// Records that `item` was opened, given what decoding the stored history
/// gave. The earlier history is the document in the current shape if it has
/// that shape, else the document in the earlier shape, upgraded; a document
/// of neither shape counts as an empty history.
pub fn save_history(
    current: Option<Vec<HistoryItem>>,
    legacy: Option<Vec<(String, Option<u64>)>>,
    item: HistoryItem,
) -> (out: Vec<HistoryItem>)
    ensures
        current matches Some(items) ==> out@ == recorded(items@, item),
        current is None ==> (legacy matches Some(records) ==> exists|earlier: Seq<HistoryItem>|
            upgraded(earlier, records@) && out@ == #[trigger] recorded(earlier, item)),
        current is None && legacy is None ==> out@ == recorded(Seq::empty(), item),
        1 <= out.len() <= HISTORY_LIMIT,
        out[0] == item,
{
    match current {
        Some(items) => record_access(items, item),
        None => match legacy {
            Some(records) => {
                let earlier = upgrade_legacy(records);
                let out = record_access(earlier, item);
                assert(out@ == recorded(earlier@, item));
                out
            },
            None => record_access(Vec::new(), item),
        },
    }
}

/// Chooses the history from what decoding gave: the document in the current
/// shape if it has that shape, else the document in the earlier shape,
/// upgraded; an error only if it has neither.
pub fn get_history(
    current: Option<Vec<HistoryItem>>,
    legacy: Option<Vec<(String, Option<u64>)>>,
) -> (out: Result<Vec<HistoryItem>, HistoryError>)
    ensures
        out is Ok <==> current is Some || legacy is Some,
        out is Err ==> out == Err::<Vec<HistoryItem>, HistoryError>(HistoryError::Undecodable),
        current matches Some(items) ==> out == Ok::<Vec<HistoryItem>, HistoryError>(items),
        current is None ==> (legacy matches Some(records) ==> out matches Ok(items) && upgraded(
            items@,
            records@,
        )),
{
    match current {
        Some(items) => Ok(items),
        None => match legacy {
            Some(records) => Ok(upgrade_legacy(records)),
            None => Err(HistoryError::Undecodable),
        },
    }
}

} // verus!

//! The entry segmenter: one pass over the lines of a text that decides where
//! an entry ends and the next begins.
use vstd::prelude::*;
use vstd::string::StringExecFns;
use crate::detect::{is_boundary, patterns_compile, Detectors};
use crate::entry::{entry_views, extracted, parse_single_entry, EntryView, LogEntry};
use crate::lines::{lines_of, split_lines};
use crate::sanitize::{sanitize_line, sanitized};
use crate::text::{blank, chars_of, has_prefix, is_blank, starts_with, texts};

verus! {

/// The prefix of an annotation line, which belongs to no entry.
pub open spec fn annotation_prefix() -> Seq<char> {
    "The relevant information"@
}

/// Lines that the segmenter passes over: blank lines and annotation lines.
/// Both are judged on the raw line.
pub open spec fn is_skipped(line: Seq<char>) -> bool {
    is_blank(line) || has_prefix(line, annotation_prefix())
}

/// The state of the segmenter: the blocks that are complete, in order, and
/// the block that is still growing, if there is one.
pub struct Segmentation {
    pub closed: Seq<Seq<char>>,
    pub open: Option<Seq<char>>,
}

/// The state before any line.
pub open spec fn start() -> Segmentation {
    Segmentation { closed: Seq::empty(), open: None }
}

/// The complete blocks once the growing block, if any, is closed too.
pub open spec fn close(state: Segmentation) -> Seq<Seq<char>> {
    match state.open {
        Some(block) => state.closed.push(block),
        None => state.closed,
    }
}

/// The state after one more raw line. A skipped line changes nothing. A line
/// with a boundary signal closes the growing block and starts a new one. Any
/// other line is joined to the growing block with a line feed, or starts the
/// first block.
pub open spec fn feed(state: Segmentation, line: Seq<char>) -> Segmentation {
    if is_skipped(line) {
        state
    } else {
        let clean = sanitized(line);
        if is_boundary(clean) {
            Segmentation { closed: close(state), open: Some(clean) }
        } else {
            match state.open {
                Some(block) => Segmentation {
                    closed: state.closed,
                    open: Some(block.push('\n') + clean),
                },
                None => Segmentation { closed: state.closed, open: Some(clean) },
            }
        }
    }
}

/// The state after all the given lines, fed in order.
pub open spec fn feed_all(lines: Seq<Seq<char>>) -> Segmentation
    decreases lines.len(),
{
    if lines.len() == 0 {
        start()
    } else {
        feed(feed_all(lines.drop_last()), lines.last())
    }
}

/// The blocks of a text.
pub open spec fn blocks_of(content: Seq<char>) -> Seq<Seq<char>> {
    close(feed_all(lines_of(content)))
}

/// The entries of the given blocks: each block extracted under its position.
pub open spec fn entries_from(blocks: Seq<Seq<char>>) -> Seq<EntryView> {
    Seq::new(blocks.len(), |i: int| extracted(blocks[i], i as nat))
}

/// The entries of a text.
pub open spec fn entries_of(content: Seq<char>) -> Seq<EntryView> {
    entries_from(blocks_of(content))
}

/// There are as many entries as blocks, and the entry at position `i` has the
/// id `i`: the ids start at 0 and rise by one, without a gap.
pub proof fn lemma_ids_are_positions(content: Seq<char>)
    ensures
        entries_of(content).len() == blocks_of(content).len(),
        forall|i: int| 0 <= i < entries_of(content).len() ==> entries_of(content)[i].id == i,
        forall|i: int, j: int|
            0 <= i < j < entries_of(content).len() ==> entries_of(content)[i].id < entries_of(
                content,
            )[j].id,
{
}

/// Equal texts have equal entries: the entries depend on the text alone.
pub proof fn lemma_entries_depend_on_text_alone(first: Seq<char>, second: Seq<char>)
    requires
        first == second,
    ensures
        entries_of(first) == entries_of(second),
{
}

/// Closes the growing block, if there is one: its entry joins the entries.
fn close_block(
    detectors: &Detectors,
    entries: &mut Vec<LogEntry>,
    current: Option<String>,
    Ghost(closed): Ghost<Seq<Seq<char>>>,
)
    requires
        entry_views(old(entries)@) == entries_from(closed),
    ensures
        entry_views(final(entries)@) == entries_from(
            close(Segmentation { closed, open: crate::entry::optional_text(current) }),
        ),
{
    match current {
        Some(block) => {
            let id = entries.len();
            let entry = parse_single_entry(detectors, block.as_str(), id);
            let ghost before = entries@;
            entries.push(entry);
            proof {
                assert(entry_views(before).len() == before.len());
                assert(entries_from(closed).len() == closed.len());
                assert forall|i: int| 0 <= i < entries@.len() implies entry_views(entries@)[i]
                    == entries_from(closed.push(block@))[i] by {
                    if i < before.len() {
                        assert(entry_views(before)[i] == entries_from(closed)[i]);
                    }
                }
                assert(entry_views(entries@) =~= entries_from(closed.push(block@)));
            }
        },
        None => {},
    }
}

/// Segments `content` with the given detectors and extracts every block.
pub fn segment(detectors: &Detectors, content: &str) -> (entries: Vec<LogEntry>)
    ensures
        entry_views(entries@) == entries_of(content@),
        forall|i: int| 0 <= i < entries.len() ==> entries[i].id == i,
{
    let lines = split_lines(content);
    let prefix = chars_of("The relevant information");
    let mut entries: Vec<LogEntry> = Vec::new();
    let mut current: Option<String> = None;
    let mut i: usize = 0;
    assert(texts(lines@).take(0) == Seq::<Seq<char>>::empty());
    assert(entry_views(entries@) == entries_from(start().closed));
    while i < lines.len()
        invariant
            i <= lines.len(),
            prefix@ == annotation_prefix(),
            texts(lines@) == lines_of(content@),
            entry_views(entries@) == entries_from(feed_all(texts(lines@).take(i as int)).closed),
            crate::entry::optional_text(current) == feed_all(texts(lines@).take(i as int)).open,
        decreases lines.len() - i,
    {
        let ghost before = feed_all(texts(lines@).take(i as int));
        proof {
            let upto = texts(lines@).take(i + 1);
            assert(upto.drop_last() == texts(lines@).take(i as int));
            assert(upto.last() == lines@[i as int]@);
        }
        let line = &lines[i];
        let raw = chars_of(line.as_str());
        if !(blank(&raw) || starts_with(&raw, &prefix)) {
            let clean = sanitize_line(line.as_str());
            if detectors.starts_entry(clean.as_str()) {
                close_block(detectors, &mut entries, current, Ghost(before.closed));
                current = Some(clean);
            } else {
                match current {
                    Some(block) => {
                        let mut block = block;
                        block.push('\n');
                        block.append(clean.as_str());
                        current = Some(block);
                    },
                    None => {
                        current = Some(clean);
                    },
                }
            }
        }
        i += 1;
    }
    assert(texts(lines@).take(lines.len() as int) == texts(lines@));
    let ghost last = feed_all(texts(lines@)).closed;
    close_block(detectors, &mut entries, current, Ghost(last));
    proof {
        lemma_ids_are_positions(content@);
        assert forall|i: int| 0 <= i < entries.len() implies entries[i].id == i by {
            assert(entry_views(entries@)[i].id == i);
        }
    }
    entries
}

/// Segments `content` and extracts every block. Fails only if the `regex`
/// crate refuses one of the detectors' patterns.
pub fn parse_log_entries(content: &str) -> (parsed: Option<Vec<LogEntry>>)
    ensures
        parsed is Some <==> patterns_compile(),
        parsed matches Some(entries) ==> {
            &&& entry_views(entries@) == entries_of(content@)
            &&& forall|i: int| 0 <= i < entries.len() ==> entries[i].id == i
        },
{
    match Detectors::new() {
        Some(detectors) => Some(segment(&detectors, content)),
        None => None,
    }
}

} // verus!

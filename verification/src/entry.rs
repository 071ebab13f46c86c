//! The structured record of one log entry, and its extraction from a block of
//! text.
use vstd::prelude::*;
use crate::detect::{level_in, timestamp_in, Detectors};
use crate::metadata::{map_of, member_views, Metadata};
use crate::text::contains_text;

verus! {

/// One log entry.
pub struct LogEntry {
    /// Position of the entry among the entries of its text, counted from 0.
    pub id: usize,
    /// The first timestamp found in the block, if any.
    pub timestamp: Option<String>,
    /// The severity level, in upper case.
    pub level: String,
    /// The text of the block, for display.
    pub message: String,
    /// The text of the block, as it was handed to the extractor.
    pub raw: String,
    /// The members of the block, if the block is one JSON object.
    pub metadata: Metadata,
}

/// The mathematical value of a [`LogEntry`].
pub struct EntryView {
    pub id: nat,
    pub timestamp: Option<Seq<char>>,
    pub level: Seq<char>,
    pub message: Seq<char>,
    pub raw: Seq<char>,
    pub metadata: Map<Seq<char>, Seq<char>>,
}

/// The view of an optional string.
pub open spec fn optional_text(s: Option<String>) -> Option<Seq<char>> {
    match s {
        Some(t) => Some(t@),
        None => None,
    }
}

impl View for LogEntry {
    type V = EntryView;

    open spec fn view(&self) -> EntryView {
        EntryView {
            id: self.id as nat,
            timestamp: optional_text(self.timestamp),
            level: self.level@,
            message: self.message@,
            raw: self.raw@,
            metadata: self.metadata@,
        }
    }
}

/// The views of a sequence of entries, element by element.
pub open spec fn entry_views(entries: Seq<LogEntry>) -> Seq<EntryView> {
    Seq::new(entries.len(), |i: int| entries[i]@)
}

/// What reading a text as JSON gave.
pub enum JsonRead {
    /// The text is one JSON object: its members, each value written back as
    /// compact JSON.
    Object(Vec<(String, String)>),
    /// The text is JSON of another kind.
    OtherValue,
    /// The text is no JSON.
    NotJson,
}

/// The mathematical value of a [`JsonRead`].
pub enum JsonReadView {
    Object(Seq<(Seq<char>, Seq<char>)>),
    OtherValue,
    NotJson,
}

impl View for JsonRead {
    type V = JsonReadView;

    open spec fn view(&self) -> JsonReadView {
        match self {
            JsonRead::Object(members) => JsonReadView::Object(member_views(members@)),
            JsonRead::OtherValue => JsonReadView::OtherValue,
            JsonRead::NotJson => JsonReadView::NotJson,
        }
    }
}

/// What `serde_json::from_str` makes of a text: for one JSON object, its
/// members in the order in which the parsed object hands them out, each
/// value written back as compact JSON; else whether the text is JSON of
/// another kind or no JSON at all.
pub uninterp spec fn json_read(text: Seq<char>) -> JsonReadView;

/// Calls `serde_json::from_str` for a `serde_json::Value`. Of an object it
/// hands out the members, each value through `Value`'s `Display`; of any
/// other value and of a parse error it only says which of the two it was.
#[verifier::external_body]
fn read_json(text: &str) -> (read: JsonRead)
    ensures
        read@ == json_read(text@),
{
    match serde_json::from_str::<serde_json::Value>(text) {
        Ok(serde_json::Value::Object(map)) => JsonRead::Object(
            map.into_iter().map(|(key, value)| (key, value.to_string())).collect(),
        ),
        Ok(_) => JsonRead::OtherValue,
        Err(_) => JsonRead::NotJson,
    }
}

/// The metadata that a reading of JSON stands for: the members of an object,
/// and nothing for JSON of another kind or for no JSON.
pub open spec fn metadata_for(read: JsonReadView) -> Map<Seq<char>, Seq<char>> {
    match read {
        JsonReadView::Object(members) => map_of(members),
        JsonReadView::OtherValue => Map::empty(),
        JsonReadView::NotJson => Map::empty(),
    }
}

/// The metadata of a block: the members of the JSON object that the whole
/// block is, or nothing.
pub open spec fn metadata_of(text: Seq<char>) -> Map<Seq<char>, Seq<char>> {
    metadata_for(json_read(text))
}

/// The entry that a block of text and its position stand for.
pub open spec fn extracted(text: Seq<char>, id: nat) -> EntryView {
    EntryView {
        id,
        timestamp: timestamp_in(text),
        level: level_in(text),
        message: text,
        raw: text,
        metadata: metadata_of(text),
    }
}

/// The map that holds the given members, later ones replacing earlier ones
/// with the same key.
pub fn collect_members(members: Vec<(String, String)>) -> (out: Metadata)
    ensures
        out@ == map_of(member_views(members@)),
{
    let mut out = Metadata::new();
    let mut i: usize = 0;
    while i < members.len()
        invariant
            i <= members.len(),
            out@ == map_of(member_views(members@).take(i as int)),
        decreases members.len() - i,
    {
        let key = members[i].0.clone();
        let value = members[i].1.clone();
        proof {
            let all = member_views(members@);
            assert(all.take(i + 1).drop_last() == all.take(i as int));
            assert(all.take(i + 1).last() == (key@, value@));
        }
        out.insert(key, value);
        i += 1;
    }
    assert(member_views(members@).take(members.len() as int) == member_views(members@));
    out
}

/// The metadata for what the JSON reader made of a block: the members of an
/// object, and nothing for any other outcome.
pub fn metadata_from(read: JsonRead) -> (out: Metadata)
    ensures
        out@ == metadata_for(read@),
{
    match read {
        JsonRead::Object(members) => collect_members(members),
        JsonRead::OtherValue => Metadata::new(),
        JsonRead::NotJson => Metadata::new(),
    }
}

/// Extracts the entry of one block. Never fails: a missing timestamp stays
/// absent, a missing level becomes `INFO`, and a block that is no JSON object
/// has no metadata.
pub fn parse_single_entry(detectors: &Detectors, text: &str, id: usize) -> (entry: LogEntry)
    ensures
        entry@ == extracted(text@, id as nat),
        entry.timestamp matches Some(stamp) ==> contains_text(text@, stamp@),
{
    let timestamp = detectors.find_timestamp(text);
    let level = match detectors.find_level(text) {
        Some(word) => word,
        None => "INFO".to_owned(),
    };
    let metadata = metadata_from(read_json(text));
    LogEntry { id, timestamp, level, message: text.to_owned(), raw: text.to_owned(), metadata }
}

impl LogEntry {
    /// A copy of the entry.
    pub fn duplicate(&self) -> (out: LogEntry)
        ensures
            out@ == self@,
    {
        let timestamp = match &self.timestamp {
            Some(t) => Some(t.clone()),
            None => None,
        };
        LogEntry {
            id: self.id,
            timestamp,
            level: self.level.clone(),
            message: self.message.clone(),
            raw: self.raw.clone(),
            metadata: self.metadata.duplicate(),
        }
    }
}

} // verus!

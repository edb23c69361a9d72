//! Dictionary entries, read out of a search reply.
//!
//! A reply holds its results in an array under `data`. Each result gives its
//! written form and reading in the first element of `japanese`, and its senses
//! under `senses`; each sense lists definitions, tags, related words and notes.
//! Every text is kept as the UTF-16 a control displays, cut at a nul character.

use vstd::prelude::*;
use crate::document::{
    JsonNode, element, field, json_document, members, or_null, parse_json, spec_element, spec_field,
    spec_members, spec_text, text,
};
use crate::wide::{encode_truncated, wide_text};

verus! {

/// One sense of a word.
pub struct Sense {
    pub defs: Vec<Vec<u16>>,
    pub tags: Vec<Vec<u16>>,
    pub see_also: Vec<Vec<u16>>,
    pub info: Vec<Vec<u16>>,
}

/// One dictionary result: the written form, its reading, and its senses.
pub struct Entry {
    pub kanji: Vec<u16>,
    pub reading: Vec<u16>,
    pub senses: Vec<Sense>,
}

/// What a [`Sense`] holds, as sequences of UTF-16 texts.
pub struct SenseView {
    pub defs: Seq<Seq<u16>>,
    pub tags: Seq<Seq<u16>>,
    pub see_also: Seq<Seq<u16>>,
    pub info: Seq<Seq<u16>>,
}

/// What an [`Entry`] holds.
pub struct EntryView {
    pub kanji: Seq<u16>,
    pub reading: Seq<u16>,
    pub senses: Seq<SenseView>,
}

/// The texts of a list of wide strings.
pub open spec fn texts_view(list: Seq<Vec<u16>>) -> Seq<Seq<u16>> {
    list.map_values(|t: Vec<u16>| t@)
}

impl View for Sense {
    type V = SenseView;

    open spec fn view(&self) -> SenseView {
        SenseView {
            defs: texts_view(self.defs@),
            tags: texts_view(self.tags@),
            see_also: texts_view(self.see_also@),
            info: texts_view(self.info@),
        }
    }
}

impl View for Entry {
    type V = EntryView;

    open spec fn view(&self) -> EntryView {
        EntryView {
            kanji: self.kanji@,
            reading: self.reading@,
            senses: self.senses@.map_values(|s: Sense| s@),
        }
    }
}

/// The entries of a list, each by its view.
pub open spec fn entries_view(list: Seq<Entry>) -> Seq<EntryView> {
    list.map_values(|e: Entry| e@)
}

/// The wide text of a JSON value: its string, or the empty text.
pub open spec fn wide_of(v: JsonNode) -> Seq<u16> {
    wide_text(spec_text(v))
}

/// The wide texts of the members of a JSON array.
pub open spec fn wide_list_of(v: JsonNode) -> Seq<Seq<u16>> {
    spec_members(v).map_values(|x: JsonNode| wide_of(x))
}

/// The sense that a JSON object describes.
pub open spec fn sense_of(s: JsonNode) -> SenseView {
    SenseView {
        defs: wide_list_of(spec_field(s, "english_definitions"@)),
        tags: wide_list_of(spec_field(s, "tags"@)),
        see_also: wide_list_of(spec_field(s, "see_also"@)),
        info: wide_list_of(spec_field(s, "info"@)),
    }
}

/// The entry that one search result describes.
pub open spec fn entry_of(j: JsonNode) -> EntryView {
    let head = spec_element(spec_field(j, "japanese"@), 0);
    EntryView {
        kanji: wide_of(spec_field(head, "word"@)),
        reading: wide_of(spec_field(head, "reading"@)),
        senses: spec_members(spec_field(j, "senses"@)).map_values(|s: JsonNode| sense_of(s)),
    }
}

/// The entries of a search reply: one per member of its `data` array.
pub open spec fn entries_of(reply: JsonNode) -> Seq<EntryView> {
    spec_members(spec_field(reply, "data"@)).map_values(|j: JsonNode| entry_of(j))
}

/// The wide texts of the members of `v`.
fn wide_list(v: Option<&JsonNode>) -> (r: Vec<Vec<u16>>)
    ensures
        texts_view(r@) == wide_list_of(or_null(v)),
{
    let items = members(v);
    let n = items.len();
    let mut out: Vec<Vec<u16>> = Vec::new();
    for i in 0..n
        invariant
            n == items@.len(),
            items@ == spec_members(or_null(v)),
            out@.len() == i,
            forall|k: int| 0 <= k < i ==> (#[trigger] out@[k])@ == wide_of(items@[k]),
    {
        out.push(encode_truncated(text(Some(&items[i]))));
    }
    assert(texts_view(out@) =~= wide_list_of(or_null(v)));
    out
}

/// Reads one sense out of its JSON object.
fn read_sense(s: &JsonNode) -> (r: Sense)
    ensures
        r@ == sense_of(*s),
{
    let defs = wide_list(field(Some(s), "english_definitions"));
    let tags = wide_list(field(Some(s), "tags"));
    let see_also = wide_list(field(Some(s), "see_also"));
    let info = wide_list(field(Some(s), "info"));
    Sense { defs, tags, see_also, info }
}

/// Reads one entry out of a search result.
fn read_entry(j: &JsonNode) -> (r: Entry)
    ensures
        r@ == entry_of(*j),
{
    let head = element(field(Some(j), "japanese"), 0);
    let kanji = encode_truncated(text(field(head, "word")));
    let reading = encode_truncated(text(field(head, "reading")));
    let items = members(field(Some(j), "senses"));
    let n = items.len();
    let mut senses: Vec<Sense> = Vec::new();
    for i in 0..n
        invariant
            n == items@.len(),
            items@ == spec_members(spec_field(*j, "senses"@)),
            senses@.len() == i,
            forall|k: int| 0 <= k < i ==> (#[trigger] senses@[k])@ == sense_of(items@[k]),
    {
        senses.push(read_sense(&items[i]));
    }
    let r = Entry { kanji, reading, senses };
    assert(r@.senses =~= entry_of(*j).senses);
    r
}

/// Reads the entries of a parsed search reply. `None` stands for a reply that
/// did not parse as JSON, which gives no entries.
pub fn read_entries(reply: Option<&JsonNode>) -> (entries: Vec<Entry>)
    ensures
        entries_view(entries@) == entries_of(or_null(reply)),
{
    let items = members(field(reply, "data"));
    let n = items.len();
    let mut out: Vec<Entry> = Vec::new();
    for i in 0..n
        invariant
            n == items@.len(),
            items@ == spec_members(spec_field(or_null(reply), "data"@)),
            out@.len() == i,
            forall|k: int| 0 <= k < i ==> (#[trigger] out@[k])@ == entry_of(items@[k]),
    {
        out.push(read_entry(&items[i]));
    }
    assert(entries_view(out@) =~= entries_of(or_null(reply)));
    out
}

/// The entries of a reply's text: those of its document, or none when the
/// text is not JSON.
pub open spec fn reply_entries(json_text: Seq<char>) -> Seq<EntryView> {
    match json_document(json_text) {
        Ok(doc) => entries_of(doc),
        Err(_) => Seq::empty(),
    }
}

/// Parses the text of a search reply and reads its entries. A text that is
/// not JSON gives no entries, and the parser's message beside them.
pub fn parse(json_text: &str) -> (r: (Vec<Entry>, Option<String>))
    ensures
        entries_view(r.0@) == reply_entries(json_text@),
        match json_document(json_text@) {
            Ok(_) => r.1 is None,
            Err(message) => r.1 matches Some(m) && m@ == message,
        },
{
    match parse_json(json_text) {
        Ok(doc) => (read_entries(Some(&doc)), None),
        Err(message) => {
            let none: Vec<Entry> = Vec::new();
            assert(entries_view(none@) =~= Seq::<EntryView>::empty());
            (none, Some(message))
        },
    }
}

/// Every result of the reply's `data` array gives one entry, in order. The
/// entry's written form and reading are the texts of `word` and `reading` in
/// the first element of that result's `japanese` array, and the entry has one
/// sense per member of that result's `senses` array.
pub proof fn each_result_gives_its_entry(reply: JsonNode, j: int)
    requires
        0 <= j < spec_members(spec_field(reply, "data"@)).len(),
    ensures
        entries_of(reply).len() == spec_members(spec_field(reply, "data"@)).len(),
        ({
            let r = spec_members(spec_field(reply, "data"@))[j];
            let head = spec_element(spec_field(r, "japanese"@), 0);
            &&& entries_of(reply)[j].kanji == wide_text(spec_text(spec_field(head, "word"@)))
            &&& entries_of(reply)[j].reading == wide_text(spec_text(spec_field(head, "reading"@)))
            &&& entries_of(reply)[j].senses.len() == spec_members(spec_field(r, "senses"@)).len()
        }),
{
}

/// Sense `k` of entry `j` holds exactly the texts of that sense object's own
/// lists, each in its order: `english_definitions` as the definitions, then
/// `tags`, `see_also` and `info`. Nothing outside the sense object adds to
/// them; `t` is any position in a list.
pub proof fn each_sense_reads_its_own_lists(reply: JsonNode, j: int, k: int, t: int)
    requires
        0 <= j < spec_members(spec_field(reply, "data"@)).len(),
        0 <= k < spec_members(spec_field(spec_members(spec_field(reply, "data"@))[j], "senses"@)).len(),
    ensures
        ({
            let s = spec_members(spec_field(spec_members(spec_field(reply, "data"@))[j], "senses"@))[k];
            let v = entries_of(reply)[j].senses[k];
            let defs = spec_members(spec_field(s, "english_definitions"@));
            let tags = spec_members(spec_field(s, "tags"@));
            let see_also = spec_members(spec_field(s, "see_also"@));
            let info = spec_members(spec_field(s, "info"@));
            &&& v.defs.len() == defs.len()
            &&& v.tags.len() == tags.len()
            &&& v.see_also.len() == see_also.len()
            &&& v.info.len() == info.len()
            &&& 0 <= t < defs.len() ==> v.defs[t] == wide_text(spec_text(defs[t]))
            &&& 0 <= t < tags.len() ==> v.tags[t] == wide_text(spec_text(tags[t]))
            &&& 0 <= t < see_also.len() ==> v.see_also[t] == wide_text(spec_text(see_also[t]))
            &&& 0 <= t < info.len() ==> v.info[t] == wide_text(spec_text(info[t]))
        }),
{
}

} // verus!

//! Reading stored documents back tolerantly: a member that is missing or of
//! the wrong kind falls back to a default instead of failing the whole read.

use vstd::prelude::*;
use serde_json::Value;
use crate::entry::{opt_text, same_document_fields, texts, EntryPayload, EntryUpdate, EntryView};
use crate::sanitize::push_char;

verus! {

/// Whether `serde_json` accepts a text as one JSON value.
pub uninterp spec fn json_parses(s: Seq<char>) -> bool;

/// The member `key` of the JSON object that a text holds, where that member
/// is a JSON string.
pub uninterp spec fn json_text_member(text: Seq<char>, key: Seq<char>) -> Option<Seq<char>>;

/// The member `key` of the JSON object that a text holds, where that member
/// is a JSON array: for each item, its text where it is a JSON string.
pub uninterp spec fn json_text_list_member(text: Seq<char>, key: Seq<char>) -> Option<Seq<Option<Seq<char>>>>;

pub open spec fn opt_texts(s: Seq<Option<String>>) -> Seq<Option<Seq<char>>> {
    s.map_values(|o: Option<String>| opt_text(o))
}

pub open spec fn opt_text_list(o: Option<Vec<Option<String>>>) -> Option<Seq<Option<Seq<char>>>> {
    match o {
        Some(v) => Some(opt_texts(v@)),
        None => None,
    }
}

/// Relies on `serde_json::from_str::<Value>`: it accepts or refuses a text by
/// the text alone.
#[verifier::external_body]
fn is_json(text: &str) -> (r: bool)
    ensures
        r == json_parses(text@),
{
    serde_json::from_str::<Value>(text).is_ok()
}

/// Relies on `serde_json::from_str::<Value>`, then `Value::get` with a string
/// key and `Value::as_str`: the string member of the parsed object, by the
/// text and the key alone.
#[verifier::external_body]
fn text_member(text: &str, key: &str) -> (r: Option<String>)
    ensures
        opt_text(r) == json_text_member(text@, key@),
{
    let v: Value = serde_json::from_str(text).ok()?;
    v.get(key)?.as_str().map(String::from)
}

/// Relies on `serde_json::from_str::<Value>`, then `Value::get` with a string
/// key, `Value::as_array` and `Value::as_str` on each item: the array member
/// of the parsed object, by the text and the key alone.
#[verifier::external_body]
fn text_list_member(text: &str, key: &str) -> (r: Option<Vec<Option<String>>>)
    ensures
        opt_text_list(r) == json_text_list_member(text@, key@),
{
    let v: Value = serde_json::from_str(text).ok()?;
    let items = v.get(key)?.as_array()?;
    Some(items.iter().map(|i| i.as_str().map(String::from)).collect())
}

/// The texts that are present, in order.
pub open spec fn present(s: Seq<Option<Seq<char>>>) -> Seq<Seq<char>>
    decreases s.len(),
{
    if s.len() == 0 {
        Seq::empty()
    } else {
        let rest = present(s.drop_last());
        match s.last() {
            Some(t) => rest.push(t),
            None => rest,
        }
    }
}

pub fn present_texts(v: &Vec<Option<String>>) -> (r: Vec<String>)
    ensures
        texts(r@) == present(opt_texts(v@)),
{
    let mut out: Vec<String> = Vec::new();
    let mut i: usize = 0;
    while i < v.len()
        invariant
            i <= v.len(),
            texts(out@) == present(opt_texts(v@.take(i as int))),
        decreases v.len() - i,
    {
        let ghost before = out@;
        assert(opt_texts(v@.take(i + 1)).drop_last() =~= opt_texts(v@.take(i as int)));
        assert(opt_texts(v@.take(i + 1)).last() == opt_text(v@[i as int]));
        match &v[i] {
            Some(t) => {
                out.push(t.clone());
                assert(texts(out@) =~= texts(before).push(t@));
            },
            None => {},
        }
        i = i + 1;
    }
    assert(v@.take(v.len() as int) =~= v@);
    out
}

pub open spec fn or_empty(o: Option<Seq<char>>) -> Seq<char> {
    match o {
        Some(t) => t,
        None => Seq::empty(),
    }
}

/// The entry that a stored document gives: absent texts become empty, an
/// absent keyword list becomes empty and drops its non-string items, and the
/// creation date falls back to the older `created_at` member.
pub open spec fn document_entry(text: Seq<char>) -> EntryView {
    EntryView {
        id: json_text_member(text, "id"@),
        title: or_empty(json_text_member(text, "title"@)),
        figure: or_empty(json_text_member(text, "figure"@)),
        moment: or_empty(json_text_member(text, "moment"@)),
        narrative: or_empty(json_text_member(text, "narrative"@)),
        keywords: match json_text_list_member(text, "keywords"@) {
            Some(k) => present(k),
            None => Seq::empty(),
        },
        image_base64: None,
        date_created: match json_text_member(text, "date_created"@) {
            Some(d) => d,
            None => or_empty(json_text_member(text, "created_at"@)),
        },
        date_modified: None,
        image_url: None,
    }
}

fn text_or_empty(o: Option<String>) -> (r: String)
    ensures
        r@ == or_empty(opt_text(o)),
{
    match o {
        Some(t) => t,
        None => String::new(),
    }
}

fn keywords_member(text: &str) -> (r: Option<Vec<String>>)
    ensures
        match r {
            Some(k) => json_text_list_member(text@, "keywords"@) matches Some(l) && texts(k@) == present(l),
            None => json_text_list_member(text@, "keywords"@) is None,
        },
{
    match text_list_member(text, "keywords") {
        Some(k) => Some(present_texts(&k)),
        None => None,
    }
}

/// Reads one stored document: `None` where the text is not JSON at all.
pub fn load_document(text: &str) -> (r: Option<EntryPayload>)
    ensures
        r is Some == json_parses(text@),
        r matches Some(e) ==> e@ == document_entry(text@),
{
    if !is_json(text) {
        return None;
    }
    let keywords = match keywords_member(text) {
        Some(k) => k,
        None => Vec::new(),
    };
    let date_created = match text_member(text, "date_created") {
        Some(d) => d,
        None => text_or_empty(text_member(text, "created_at")),
    };
    let e = EntryPayload {
        id: text_member(text, "id"),
        title: text_or_empty(text_member(text, "title")),
        figure: text_or_empty(text_member(text, "figure")),
        moment: text_or_empty(text_member(text, "moment")),
        narrative: text_or_empty(text_member(text, "narrative")),
        keywords,
        image_base64: None,
        date_created,
        date_modified: None,
        image_url: None,
    };
    assert(texts(e.keywords@) =~= document_entry(text@).keywords);
    Some(e)
}

/// Whether `u` holds the changes that an update request names: each field
/// given as a JSON string, and the keyword list with its non-string items
/// dropped.
pub open spec fn update_of(u: EntryUpdate, text: Seq<char>) -> bool {
    &&& opt_text(u.title) == json_text_member(text, "title"@)
    &&& opt_text(u.figure) == json_text_member(text, "figure"@)
    &&& opt_text(u.moment) == json_text_member(text, "moment"@)
    &&& opt_text(u.narrative) == json_text_member(text, "narrative"@)
    &&& match u.keywords {
        Some(k) => json_text_list_member(text, "keywords"@) matches Some(l) && texts(k@) == present(l),
        None => json_text_list_member(text, "keywords"@) is None,
    }
}

/// Parses an update request; `None` where the text is not JSON.
pub fn parse_update(text: &str) -> (r: Option<EntryUpdate>)
    ensures
        r is Some == json_parses(text@),
        r matches Some(u) ==> update_of(u, text@),
{
    if !is_json(text) {
        return None;
    }
    Some(
        EntryUpdate {
            title: text_member(text, "title"),
            figure: text_member(text, "figure"),
            moment: text_member(text, "moment"),
            narrative: text_member(text, "narrative"),
            keywords: keywords_member(text),
        },
    )
}

/// Whether a file name has the extension `json`: it ends in `.json` after at
/// least one other character.
pub open spec fn is_document_name_spec(name: Seq<char>) -> bool {
    name.len() > 5 && name.skip(name.len() - 5) == ".json"@
}
pub fn is_document_name(name: &str) -> (r: bool)
    ensures
        r == is_document_name_spec(name@),
{
    let n = name.unicode_len();
    if n <= 5 {
        return false;
    }
    let tail = name.substring_char(n - 5, n);
    let mut suffix = String::new();
    push_char(&mut suffix, '.');
    push_char(&mut suffix, 'j');
    push_char(&mut suffix, 's');
    push_char(&mut suffix, 'o');
    push_char(&mut suffix, 'n');
    proof {
        reveal_strlit(".json");
    }
    assert(suffix@ =~= ".json"@);
    assert(tail@ =~= name@.skip(n - 5));
    let tail_text = String::from_str(tail);
    tail_text == suffix
}

/// A document whose members hold a record's id, texts, keywords and creation
/// date gives back a record with the same document fields.
pub proof fn lemma_document_rebuilds_entry(e: EntryView, text: Seq<char>)
    requires
        json_text_member(text, "id"@) == e.id,
        json_text_member(text, "title"@) == Some(e.title),
        json_text_member(text, "figure"@) == Some(e.figure),
        json_text_member(text, "moment"@) == Some(e.moment),
        json_text_member(text, "narrative"@) == Some(e.narrative),
        json_text_list_member(text, "keywords"@) matches Some(k) && present(k) == e.keywords,
        json_text_member(text, "date_created"@) == Some(e.date_created),
    ensures
        same_document_fields(document_entry(text), e),
{
}

} // verus!

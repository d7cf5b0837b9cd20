//! The entry record, the partial change that an update applies, and the
//! results handed back to callers.

use vstd::prelude::*;

verus! {

/// One archived record.
#[derive(Clone, Debug, PartialEq, Eq)]
pub struct EntryPayload {
    pub id: Option<String>,
    pub title: String,
    pub figure: String,
    pub moment: String,
    pub narrative: String,
    pub keywords: Vec<String>,
    pub image_base64: Option<String>,
    pub date_created: String,
    pub date_modified: Option<String>,
    pub image_url: Option<String>,
}

/// The mathematical value of an entry: every text as a sequence of characters.
pub struct EntryView {
    pub id: Option<Seq<char>>,
    pub title: Seq<char>,
    pub figure: Seq<char>,
    pub moment: Seq<char>,
    pub narrative: Seq<char>,
    pub keywords: Seq<Seq<char>>,
    pub image_base64: Option<Seq<char>>,
    pub date_created: Seq<char>,
    pub date_modified: Option<Seq<char>>,
    pub image_url: Option<Seq<char>>,
}

pub open spec fn opt_text(o: Option<String>) -> Option<Seq<char>> {
    match o {
        Some(s) => Some(s@),
        None => None,
    }
}

impl View for EntryPayload {
    type V = EntryView;

    open spec fn view(&self) -> EntryView {
        EntryView {
            id: opt_text(self.id),
            title: self.title@,
            figure: self.figure@,
            moment: self.moment@,
            narrative: self.narrative@,
            keywords: texts(self.keywords@),
            image_base64: opt_text(self.image_base64),
            date_created: self.date_created@,
            date_modified: opt_text(self.date_modified),
            image_url: opt_text(self.image_url),
        }
    }
}

/// The fields that a document carries, as opposed to those that only travel
/// with a request or depend on the moment of writing.
pub open spec fn same_document_fields(a: EntryView, b: EntryView) -> bool {
    &&& a.id == b.id
    &&& a.title == b.title
    &&& a.figure == b.figure
    &&& a.moment == b.moment
    &&& a.narrative == b.narrative
    &&& a.keywords == b.keywords
    &&& a.date_created == b.date_created
}

pub fn copy_text(o: &Option<String>) -> (r: Option<String>)
    ensures
        opt_text(r) == opt_text(*o),
{
    match o {
        Some(s) => Some(s.clone()),
        None => None,
    }
}

/// The characters of each string, in order.
pub open spec fn texts(v: Seq<String>) -> Seq<Seq<char>> {
    v.map_values(|s: String| s@)
}

pub fn copy_texts(v: &Vec<String>) -> (r: Vec<String>)
    ensures
        texts(r@) == texts(v@),
{
    let mut out: Vec<String> = Vec::new();
    let mut i: usize = 0;
    while i < v.len()
        invariant
            i <= v.len(),
            texts(out@) == texts(v@).take(i as int),
        decreases v.len() - i,
    {
        let t: String = v[i].clone();
        let ghost before = out@;
        out.push(t);
        assert(texts(out@) =~= texts(before).push(t@));
        assert(texts(v@).take(i + 1) =~= texts(v@).take(i as int).push(texts(v@)[i as int]));
        i = i + 1;
    }
    assert(texts(v@).take(v.len() as int) =~= texts(v@));
    out
}

impl EntryPayload {
    /// A copy with the same value.
    pub fn duplicate(&self) -> (r: EntryPayload)
        ensures
            r@ == self@,
    {
        EntryPayload {
            id: copy_text(&self.id),
            title: self.title.clone(),
            figure: self.figure.clone(),
            moment: self.moment.clone(),
            narrative: self.narrative.clone(),
            keywords: copy_texts(&self.keywords),
            image_base64: copy_text(&self.image_base64),
            date_created: self.date_created.clone(),
            date_modified: copy_text(&self.date_modified),
            image_url: copy_text(&self.image_url),
        }
    }
}

/// The fields that an update may change; an absent field is left as it is.
#[derive(Clone, Debug, PartialEq, Eq)]
pub struct EntryUpdate {
    pub title: Option<String>,
    pub figure: Option<String>,
    pub moment: Option<String>,
    pub narrative: Option<String>,
    pub keywords: Option<Vec<String>>,
}

pub open spec fn text_or(o: Option<String>, s: Seq<char>) -> Seq<char> {
    match o {
        Some(t) => t@,
        None => s,
    }
}

pub open spec fn texts_or(o: Option<Vec<String>>, s: Seq<Seq<char>>) -> Seq<Seq<char>> {
    match o {
        Some(t) => texts(t@),
        None => s,
    }
}

/// What an entry becomes under `u`, with `modified` as its new modification time.
pub open spec fn updated(e: EntryView, u: EntryUpdate, modified: Seq<char>) -> EntryView {
    EntryView {
        title: text_or(u.title, e.title),
        figure: text_or(u.figure, e.figure),
        moment: text_or(u.moment, e.moment),
        narrative: text_or(u.narrative, e.narrative),
        keywords: texts_or(u.keywords, e.keywords),
        date_modified: Some(modified),
        ..e
    }
}

/// What an entry operation tells its caller.
#[derive(Clone, Debug, PartialEq, Eq)]
pub struct SaveResult {
    pub success: bool,
    pub entry_id: Option<String>,
    pub file_path: Option<String>,
    pub error: Option<String>,
}

/// What an image write tells its caller.
#[derive(Clone, Debug, PartialEq, Eq)]
pub struct ImageResult {
    pub success: bool,
    pub url: Option<String>,
    pub error: Option<String>,
}

impl SaveResult {
    pub fn saved(id: String, file_path: String) -> (r: SaveResult)
        ensures
            r.success,
            r.entry_id == Some(id),
            r.file_path == Some(file_path),
            r.error is None,
    {
        SaveResult { success: true, entry_id: Some(id), file_path: Some(file_path), error: None }
    }

    pub fn failed(message: String) -> (r: SaveResult)
        ensures
            !r.success,
            r.entry_id is None,
            r.file_path is None,
            r.error == Some(message),
    {
        SaveResult { success: false, entry_id: None, file_path: None, error: Some(message) }
    }
}

impl ImageResult {
    pub fn saved(url: String) -> (r: ImageResult)
        ensures
            r.success,
            r.url == Some(url),
            r.error is None,
    {
        ImageResult { success: true, url: Some(url), error: None }
    }

    pub fn failed(message: String) -> (r: ImageResult)
        ensures
            !r.success,
            r.url is None,
            r.error == Some(message),
    {
        ImageResult { success: false, url: None, error: Some(message) }
    }
}

/// Failures that the archive's own rules produce.
#[derive(Clone, Copy, Debug, PartialEq, Eq)]
pub enum StoreError {
    /// The image payload is not valid base64.
    Decoding,
    /// The identity to be assigned is empty.
    EmptyId,
    /// The identity to be assigned is already held by a cached entry.
    DuplicateId,
}

impl StoreError {
    /// A message for the caller to show.
    pub fn message(&self) -> (r: String)
        ensures
            r@.len() > 0,
    {
        proof {
            reveal_strlit("Failed to decode base64 image data");
            reveal_strlit("Entry id must not be empty");
            reveal_strlit("An entry with this id already exists");
        }
        match self {
            StoreError::Decoding => String::from_str("Failed to decode base64 image data"),
            StoreError::EmptyId => String::from_str("Entry id must not be empty"),
            StoreError::DuplicateId => String::from_str("An entry with this id already exists"),
        }
    }
}

} // verus!

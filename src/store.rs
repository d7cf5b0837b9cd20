//! The entry cache: an ordered collection of records, each with the name of
//! the document file that holds it, in which no two records share an id.
//! Writing and removing files is left to the caller; every operation here
//! says which record to write or which file to remove.

use vstd::prelude::*;
use crate::codec::{base64_decode, base64_standard, without_scheme};
use crate::document::{document_entry, is_document_name, is_document_name_spec, json_parses, load_document};
use crate::entry::{copy_texts, opt_text, same_document_fields, updated, EntryPayload, EntryUpdate, EntryView, StoreError};
use crate::sanitize::{sanitize_filename, sanitized};

verus! {

/// A cached record and the name of its document file.
#[derive(Clone, Debug, PartialEq, Eq)]
pub struct StoredEntry {
    pub entry: EntryPayload,
    pub file_name: String,
}

impl View for StoredEntry {
    type V = (EntryView, Seq<char>);

    open spec fn view(&self) -> (EntryView, Seq<char>) {
        (self.entry@, self.file_name@)
    }
}

/// The position of the first record whose id is `id`, or -1.
pub open spec fn first_index(s: Seq<(EntryView, Seq<char>)>, id: Option<Seq<char>>) -> int
    decreases s.len(),
{
    if s.len() == 0 {
        -1
    } else {
        let k = first_index(s.drop_last(), id);
        if k >= 0 {
            k
        } else if s.last().0.id == id {
            s.len() - 1
        } else {
            -1
        }
    }
}

pub open spec fn holds_id(s: Seq<(EntryView, Seq<char>)>, id: Option<Seq<char>>) -> bool {
    first_index(s, id) >= 0
}

/// No two records share an id; records without one are not counted.
pub open spec fn ids_distinct(s: Seq<(EntryView, Seq<char>)>) -> bool {
    forall|i: int, j: int|
        0 <= i < j < s.len() && (#[trigger] s[i].0.id) is Some ==> s[i].0.id != #[trigger] s[j].0.id
}

/// The record with id `id`, if any.
pub open spec fn lookup(s: Seq<(EntryView, Seq<char>)>, id: Seq<char>) -> Option<EntryView> {
    let k = first_index(s, Some(id));
    if k >= 0 {
        Some(s[k].0)
    } else {
        None
    }
}

pub proof fn lemma_first_index(s: Seq<(EntryView, Seq<char>)>, id: Option<Seq<char>>)
    ensures
        -1 <= first_index(s, id) < s.len(),
        first_index(s, id) >= 0 ==> s[first_index(s, id)].0.id == id,
        forall|j: int|
            0 <= j < s.len() && (first_index(s, id) < 0 || j < first_index(s, id)) ==> #[trigger] s[j].0.id != id,
    decreases s.len(),
{
    if s.len() > 0 {
        lemma_first_index(s.drop_last(), id);
        assert forall|j: int|
            0 <= j < s.len() - 1 implies #[trigger] s[j] == s.drop_last()[j] by {}
    }
}

/// The first record with a given id is the one before which no record has it.
pub proof fn lemma_first_index_at(s: Seq<(EntryView, Seq<char>)>, id: Option<Seq<char>>, i: int)
    requires
        0 <= i < s.len(),
        s[i].0.id == id,
        forall|j: int| 0 <= j < i ==> #[trigger] s[j].0.id != id,
    ensures
        first_index(s, id) == i,
{
    lemma_first_index(s, id);
}

/// The name under which a new record's document is written: the sanitized
/// title and the creation time.
pub open spec fn document_name(title: Seq<char>, stamp: Seq<char>) -> Seq<char> {
    sanitized(title) + "_"@ + stamp + ".json"@
}

/// The name of a record's image file.
pub open spec fn image_name(id: Seq<char>) -> Seq<char> {
    id + ".png"@
}

/// The id that a new record gets: its own where it has one, else a fresh one.
pub open spec fn assigned_id(draft: EntryView, fresh: Seq<char>) -> Seq<char> {
    match draft.id {
        Some(i) => i,
        None => fresh,
    }
}

/// Whether saving a draft succeeds, and with which id.
pub open spec fn save_outcome(s: Seq<(EntryView, Seq<char>)>, draft: EntryView, fresh: Seq<char>) -> Result<
    Seq<char>,
    StoreError,
> {
    let id = assigned_id(draft, fresh);
    if id.len() == 0 {
        Err(StoreError::EmptyId)
    } else if holds_id(s, Some(id)) {
        Err(StoreError::DuplicateId)
    } else {
        Ok(id)
    }
}

/// The record that is saved: the draft with its id, without the raw image
/// payload, and with its modification time.
pub open spec fn saved_record(draft: EntryView, id: Seq<char>, modified: Seq<char>) -> EntryView {
    EntryView { id: Some(id), image_base64: None, date_modified: Some(modified), ..draft }
}

/// The cache after a record is added: unchanged where its id is held already.
pub open spec fn committed(s: Seq<(EntryView, Seq<char>)>, record: EntryView, name: Seq<char>) -> Seq<
    (EntryView, Seq<char>),
> {
    if holds_id(s, record.id) {
        s
    } else {
        s.push((record, name))
    }
}

/// The cache after the record `id`, if cached, takes the changes `u`.
pub open spec fn after_update(s: Seq<(EntryView, Seq<char>)>, id: Seq<char>, u: EntryUpdate, modified: Seq<char>) -> Seq<
    (EntryView, Seq<char>),
> {
    let k = first_index(s, Some(id));
    if k >= 0 {
        s.update(k, (updated(s[k].0, u, modified), s[k].1))
    } else {
        s
    }
}

/// The cache after the record `id`, if cached, is removed.
pub open spec fn after_delete(s: Seq<(EntryView, Seq<char>)>, id: Seq<char>) -> Seq<(EntryView, Seq<char>)> {
    let k = first_index(s, Some(id));
    if k >= 0 {
        s.remove(k)
    } else {
        s
    }
}

/// The document name that an imported record is given: its id with the
/// extension `json`.
pub open spec fn import_name(id: Option<Seq<char>>) -> Seq<char> {
    match id {
        Some(i) => i + ".json"@,
        None => ".json"@,
    }
}

/// A record without its raw image payload.
pub open spec fn without_image(e: EntryView) -> EntryView {
    EntryView { image_base64: None, ..e }
}

/// The cache after a batch is imported in order, each record skipped where
/// its id (or its lack of one) is held already, and cached without its raw
/// image payload.
pub open spec fn imported(s: Seq<(EntryView, Seq<char>)>, batch: Seq<EntryView>) -> Seq<(EntryView, Seq<char>)>
    decreases batch.len(),
{
    if batch.len() == 0 {
        s
    } else {
        let t = imported(s, batch.drop_last());
        committed(t, without_image(batch.last()), import_name(batch.last().id))
    }
}

pub open spec fn entry_views(v: Seq<EntryPayload>) -> Seq<EntryView> {
    v.map_values(|e: EntryPayload| e@)
}

/// The cache after a record read from a document is added: unchanged where
/// its id is held already; a record without an id is always added.
pub open spec fn admitted(s: Seq<(EntryView, Seq<char>)>, record: EntryView, name: Seq<char>) -> Seq<
    (EntryView, Seq<char>),
> {
    if record.id is Some && holds_id(s, record.id) {
        s
    } else {
        s.push((record, name))
    }
}

/// The cache rebuilt from stored documents, given in order as file names and
/// texts: each JSON text under a name with the extension `json` gives the
/// record that it describes, and other files are skipped.
pub open spec fn loaded(docs: Seq<(String, String)>) -> Seq<(EntryView, Seq<char>)>
    decreases docs.len(),
{
    if docs.len() == 0 {
        Seq::empty()
    } else {
        let t = loaded(docs.drop_last());
        let name = docs.last().0@;
        let text = docs.last().1@;
        if is_document_name_spec(name) && json_parses(text) {
            admitted(t, document_entry(text), name)
        } else {
            t
        }
    }
}

/// An image file to write with a new record.
#[derive(Clone, Debug, PartialEq, Eq)]
pub struct ImagePlan {
    pub file_name: String,
    /// `None` where the payload was not valid base64: nothing is written.
    pub bytes: Option<Vec<u8>>,
}

/// What saving a new record writes.
#[derive(Clone, Debug, PartialEq, Eq)]
pub struct SavePlan {
    pub id: String,
    pub file_name: String,
    pub record: EntryPayload,
    pub image: Option<ImagePlan>,
}

/// The image that a plan writes for a draft's payload, if any.
pub open spec fn image_planned(payload: Option<Seq<char>>, id: Seq<char>, image: Option<ImagePlan>) -> bool {
    match payload {
        None => image is None,
        Some(b) => image matches Some(img) && img.file_name@ == image_name(id) && match base64_standard(
            without_scheme(b),
        ) {
            Some(bytes) => img.bytes matches Some(x) && x@ == bytes,
            None => img.bytes is None,
        },
    }
}

/// Whether `p` is the plan for saving `draft` under `id`.
pub open spec fn plan_for(p: SavePlan, draft: EntryView, id: Seq<char>, stamp: Seq<char>, modified: Seq<char>) -> bool {
    &&& p.id@ == id
    &&& p.file_name@ == document_name(draft.title, stamp)
    &&& p.record@ == saved_record(draft, id, modified)
    &&& image_planned(draft.image_base64, id, p.image)
}

/// Whether `r` is what saving `draft` with these values gives.
pub open spec fn save_result(
    s: Seq<(EntryView, Seq<char>)>,
    draft: EntryView,
    fresh: Seq<char>,
    stamp: Seq<char>,
    modified: Seq<char>,
    r: Result<SavePlan, StoreError>,
) -> bool {
    match save_outcome(s, draft, fresh) {
        Err(e) => r == Err::<SavePlan, StoreError>(e),
        Ok(id) => r matches Ok(p) && plan_for(p, draft, id, stamp, modified),
    }
}

pub open spec fn lower_hex_digit(c: char) -> bool {
    ('0' <= c && c <= '9') || ('a' <= c && c <= 'f')
}

pub open spec fn decimal_digit(c: char) -> bool {
    '0' <= c && c <= '9'
}

/// The hyphenated form of a UUID: 32 lower-case hex digits in groups of
/// 8, 4, 4, 4 and 12, joined by `-`.
pub open spec fn uuid_shaped(s: Seq<char>) -> bool {
    &&& s.len() == 36
    &&& forall|i: int|
        0 <= i < 36 ==> if i == 8 || i == 13 || i == 18 || i == 23 {
            #[trigger] s[i] == '-'
        } else {
            lower_hex_digit(s[i])
        }
}

/// A stamp that ends in `MMDD_HHMMSS` after at least four year digits.
pub open spec fn stamp_shaped(s: Seq<char>) -> bool {
    &&& s.len() >= 15
    &&& s[s.len() - 7] == '_'
    &&& forall|i: int|
        s.len() - 15 <= i < s.len() && i != s.len() - 7 ==> decimal_digit(#[trigger] s[i])
}

/// Relies on `uuid::Uuid::new_v4`, written out by its `Display` (the
/// lower-case hyphenated form): a random identifier of 36 characters.
#[verifier::external_body]
fn fresh_uuid() -> (r: String)
    ensures
        uuid_shaped(r@),
{
    uuid::Uuid::new_v4().to_string()
}

/// Relies on `chrono::Utc::now` formatted as `%Y%m%d_%H%M%S`: the current
/// UTC time to the second; `%Y` writes at least four digits, the other
/// fields two each.
#[verifier::external_body]
fn utc_stamp_now() -> (r: String)
    ensures
        stamp_shaped(r@),
{
    chrono::Utc::now().format("%Y%m%d_%H%M%S").to_string()
}

/// Relies on `chrono::DateTime::to_rfc3339` of `chrono::Utc::now`: the
/// current UTC time in RFC 3339 form.
#[verifier::external_body]
fn utc_rfc3339_now() -> (r: String) {
    chrono::Utc::now().to_rfc3339()
}

/// The document name for a title and a creation time.
pub fn document_file_name(title: &str, stamp: &str) -> (r: String)
    ensures
        r@ == document_name(title@, stamp@),
{
    let mut name = sanitize_filename(title);
    name.append("_");
    name.append(stamp);
    name.append(".json");
    name
}

/// The document name for a legacy backup of a record titled `title`, stamped
/// with the current time.
pub fn backup_file_name(title: &str) -> (r: String)
    ensures
        exists|stamp: Seq<char>| stamp_shaped(stamp) && r@ == #[trigger] document_name(title@, stamp),
{
    let stamp = utc_stamp_now();
    document_file_name(title, stamp.as_str())
}

/// The image file name of the record `id`.
pub fn image_file_name(id: &str) -> (r: String)
    ensures
        r@ == image_name(id@),
{
    let mut name = String::from_str(id);
    name.append(".png");
    name
}

/// The document name of an imported record.
pub fn import_file_name(id: &Option<String>) -> (r: String)
    ensures
        r@ == import_name(opt_text(*id)),
{
    let mut name = match id {
        Some(i) => i.clone(),
        None => String::new(),
    };
    name.append(".json");
    name
}

impl StoredEntry {
    /// A copy with the same value.
    pub fn duplicate(&self) -> (r: StoredEntry)
        ensures
            r@ == self@,
    {
        StoredEntry { entry: self.entry.duplicate(), file_name: self.file_name.clone() }
    }
}

fn same_id(a: &Option<String>, b: &Option<String>) -> (r: bool)
    ensures
        r == (opt_text(*a) == opt_text(*b)),
{
    match (a, b) {
        (Some(x), Some(y)) => *x == *y,
        (None, None) => true,
        _ => false,
    }
}

/// The archive's cache of entries.
pub struct ArchiveStore {
    entries: Vec<StoredEntry>,
}

impl View for ArchiveStore {
    type V = Seq<(EntryView, Seq<char>)>;

    closed spec fn view(&self) -> Seq<(EntryView, Seq<char>)> {
        self.entries@.map_values(|e: StoredEntry| e@)
    }
}

impl ArchiveStore {
    pub open spec fn wf(&self) -> bool {
        ids_distinct(self@)
    }

    /// An empty cache.
    pub fn new() -> (r: ArchiveStore)
        ensures
            r@ == Seq::<(EntryView, Seq<char>)>::empty(),
            r.wf(),
    {
        let r = ArchiveStore { entries: Vec::new() };
        assert(r@ =~= Seq::<(EntryView, Seq<char>)>::empty());
        r
    }

    /// The number of cached records.
    pub fn len(&self) -> (r: usize)
        ensures
            r == self@.len(),
    {
        self.entries.len()
    }

    fn index_of(&self, id: &Option<String>) -> (r: Option<usize>)
        ensures
            match r {
                Some(i) => i < self@.len() && i as int == first_index(self@, opt_text(*id)),
                None => first_index(self@, opt_text(*id)) < 0,
            },
    {
        let ghost key = opt_text(*id);
        let mut i: usize = 0;
        while i < self.entries.len()
            invariant
                i <= self.entries.len(),
                self@.len() == self.entries.len(),
                key == opt_text(*id),
                forall|j: int| 0 <= j < i ==> #[trigger] self@[j].0.id != key,
            decreases self.entries.len() - i,
        {
            assert(self@[i as int] == self.entries@[i as int]@);
            if same_id(&self.entries[i].entry.id, id) {
                proof {
                    lemma_first_index_at(self@, key, i as int);
                }
                return Some(i);
            }
            i = i + 1;
        }
        proof {
            lemma_first_index(self@, key);
        }
        None
    }

    /// Whether a record with this id is cached.
    pub fn contains_id(&self, id: &Option<String>) -> (r: bool)
        ensures
            r == holds_id(self@, opt_text(*id)),
    {
        self.index_of(id).is_some()
    }

    /// A copy of every cached record, in order.
    pub fn get_all_entries(&self) -> (r: Vec<EntryPayload>)
        ensures
            r@.len() == self@.len(),
            forall|i: int| 0 <= i < r@.len() ==> #[trigger] r@[i]@ == self@[i].0,
    {
        let mut out: Vec<EntryPayload> = Vec::new();
        let mut i: usize = 0;
        while i < self.entries.len()
            invariant
                i <= self.entries.len(),
                self@.len() == self.entries.len(),
                out@.len() == i,
                forall|j: int| 0 <= j < i ==> #[trigger] out@[j]@ == self@[j].0,
            decreases self.entries.len() - i,
        {
            assert(self@[i as int] == self.entries@[i as int]@);
            out.push(self.entries[i].entry.duplicate());
            i = i + 1;
        }
        out
    }

    /// A copy of the record with this id, if one is cached.
    pub fn get_entry(&self, id: &str) -> (r: Option<EntryPayload>)
        ensures
            match r {
                Some(e) => lookup(self@, id@) == Some(e@),
                None => lookup(self@, id@) is None,
            },
    {
        let key = Some(String::from_str(id));
        match self.index_of(&key) {
            Some(i) => {
                assert(self@[i as int] == self.entries@[i as int]@);
                Some(self.entries[i].entry.duplicate())
            },
            None => None,
        }
    }

    /// Plans saving a draft under `fresh` (where the draft has no id of its
    /// own), written at `stamp` and modified at `modified`. Refused where the
    /// id is empty or already held.
    pub fn plan_save(&self, payload: &EntryPayload, fresh: String, stamp: &str, modified: String) -> (r: Result<
        SavePlan,
        StoreError,
    >)
        ensures
            save_result(self@, payload@, fresh@, stamp@, modified@, r),
    {
        let id = match &payload.id {
            Some(i) => i.clone(),
            None => fresh,
        };
        if id.unicode_len() == 0 {
            return Err(StoreError::EmptyId);
        }
        let key = Some(id.clone());
        if self.index_of(&key).is_some() {
            return Err(StoreError::DuplicateId);
        }
        let mut record = payload.duplicate();
        record.id = key;
        record.image_base64 = None;
        record.date_modified = Some(modified);
        let image = match &payload.image_base64 {
            Some(b) => Some(
                ImagePlan {
                    file_name: image_file_name(id.as_str()),
                    bytes: match base64_decode(b.as_str()) {
                        Ok(bytes) => Some(bytes),
                        Err(_) => None,
                    },
                },
            ),
            None => None,
        };
        Ok(SavePlan { file_name: document_file_name(payload.title.as_str(), stamp), id, record, image })
    }

    /// Plans saving a draft now: a fresh random id where the draft has none,
    /// and the current time as its file name stamp and modification time.
    pub fn prepare_save(&self, payload: &EntryPayload) -> (r: Result<SavePlan, StoreError>)
        ensures
            exists|fresh: Seq<char>, stamp: Seq<char>, modified: Seq<char>|
                uuid_shaped(fresh) && stamp_shaped(stamp) && #[trigger] save_result(
                    self@,
                    payload@,
                    fresh,
                    stamp,
                    modified,
                    r,
                ),
    {
        let fresh = match &payload.id {
            Some(_) => String::new(),
            None => fresh_uuid(),
        };
        let ghost f = fresh@;
        let stamp = utc_stamp_now();
        let modified = utc_rfc3339_now();
        let ghost m = modified@;
        let r = self.plan_save(payload, fresh, stamp.as_str(), modified);
        proof {
            let w = match payload@.id {
                Some(_) => Seq::<char>::new(
                    36,
                    |i: int|
                        if i == 8 || i == 13 || i == 18 || i == 23 {
                            '-'
                        } else {
                            '0'
                        },
                ),
                None => f,
            };
            assert(save_outcome(self@, payload@, w) == save_outcome(self@, payload@, f));
            assert(save_result(self@, payload@, w, stamp@, m, r));
        }
        r
    }

    /// Adds a record under a document name, unless its id is held already.
    pub fn add_if_new(&mut self, entry: EntryPayload, file_name: String) -> (r: bool)
        requires
            old(self).wf(),
        ensures
            final(self).wf(),
            r == !holds_id(old(self)@, entry@.id),
            final(self)@ == committed(old(self)@, entry@, file_name@),
    {
        if self.index_of(&entry.id).is_some() {
            return false;
        }
        proof {
            lemma_first_index(self@, entry@.id);
        }
        let ghost before = self@;
        let ghost item_view = (entry@, file_name@);
        self.entries.push(StoredEntry { entry, file_name });
        assert(self@ =~= before.push(item_view));
        true
    }

    /// Adds a record read from a document, unless it has an id that is held
    /// already.
    pub fn add_loaded(&mut self, entry: EntryPayload, file_name: String) -> (r: bool)
        requires
            old(self).wf(),
        ensures
            final(self).wf(),
            final(self)@ == admitted(old(self)@, entry@, file_name@),
    {
        if entry.id.is_some() && self.index_of(&entry.id).is_some() {
            return false;
        }
        proof {
            lemma_first_index(self@, entry@.id);
        }
        let ghost before = self@;
        let ghost item_view = (entry@, file_name@);
        self.entries.push(StoredEntry { entry, file_name });
        assert(self@ =~= before.push(item_view));
        true
    }

    /// Adds a planned record to the cache, unless its id is held already.
    pub fn commit_save(&mut self, plan: &SavePlan) -> (r: bool)
        requires
            old(self).wf(),
        ensures
            final(self).wf(),
            r == !holds_id(old(self)@, plan.record@.id),
            final(self)@ == committed(old(self)@, plan.record@, plan.file_name@),
    {
        self.add_if_new(plan.record.duplicate(), plan.file_name.clone())
    }

    /// Applies `changes` to the record `id`, with `modified` as its new
    /// modification time, and hands back the record to write; `None`, with
    /// the cache unchanged, where no record has that id.
    pub fn apply_update(&mut self, id: &str, changes: &EntryUpdate, modified: String) -> (r: Option<StoredEntry>)
        requires
            old(self).wf(),
        ensures
            final(self).wf(),
            final(self)@ == after_update(old(self)@, id@, *changes, modified@),
            match r {
                None => !holds_id(old(self)@, Some(id@)),
                Some(e) => holds_id(old(self)@, Some(id@)) && e@ == final(self)@[first_index(
                    old(self)@,
                    Some(id@),
                )],
            },
    {
        let key = Some(String::from_str(id));
        let i = match self.index_of(&key) {
            Some(i) => i,
            None => return None,
        };
        proof {
            lemma_first_index(self@, Some(id@));
        }
        assert(self@[i as int] == self.entries@[i as int]@);
        let mut rec = self.entries[i].entry.duplicate();
        match &changes.title {
            Some(t) => rec.title = t.clone(),
            None => {},
        }
        match &changes.figure {
            Some(t) => rec.figure = t.clone(),
            None => {},
        }
        match &changes.moment {
            Some(t) => rec.moment = t.clone(),
            None => {},
        }
        match &changes.narrative {
            Some(t) => rec.narrative = t.clone(),
            None => {},
        }
        match &changes.keywords {
            Some(k) => rec.keywords = copy_texts(k),
            None => {},
        }
        rec.date_modified = Some(modified);
        let item = StoredEntry { entry: rec, file_name: self.entries[i].file_name.clone() };
        let out = item.duplicate();
        let ghost before = self@;
        self.entries.set(i, item);
        assert(self@ =~= after_update(before, id@, *changes, modified@));
        assert forall|a: int, b: int|
            0 <= a < b < self@.len() && (#[trigger] self@[a].0.id) is Some implies self@[a].0.id
            != #[trigger] self@[b].0.id by {
            assert(self@[a].0.id == before[a].0.id);
            assert(self@[b].0.id == before[b].0.id);
        }
        Some(out)
    }

    /// Applies `changes` to the record `id` with the current time as its
    /// modification time; see `apply_update`.
    pub fn update_entry(&mut self, id: &str, changes: &EntryUpdate) -> (r: Option<StoredEntry>)
        requires
            old(self).wf(),
        ensures
            final(self).wf(),
            exists|modified: Seq<char>| #[trigger] after_update(old(self)@, id@, *changes, modified) == final(self)@,
            match r {
                None => !holds_id(old(self)@, Some(id@)) && final(self)@ == old(self)@,
                Some(e) => holds_id(old(self)@, Some(id@)) && e@ == final(self)@[first_index(
                    old(self)@,
                    Some(id@),
                )],
            },
    {
        let modified = utc_rfc3339_now();
        self.apply_update(id, changes, modified)
    }

    /// Removes the record `id` and hands it back, so that its files can be
    /// removed too; `None`, with the cache unchanged, where no record has
    /// that id.
    pub fn delete_entry(&mut self, id: &str) -> (r: Option<StoredEntry>)
        requires
            old(self).wf(),
        ensures
            final(self).wf(),
            final(self)@ == after_delete(old(self)@, id@),
            match r {
                None => !holds_id(old(self)@, Some(id@)),
                Some(e) => holds_id(old(self)@, Some(id@)) && e@ == old(self)@[first_index(
                    old(self)@,
                    Some(id@),
                )],
            },
    {
        let key = Some(String::from_str(id));
        let i = match self.index_of(&key) {
            Some(i) => i,
            None => return None,
        };
        let ghost before = self@;
        assert(before[i as int] == self.entries@[i as int]@);
        let removed = self.entries.remove(i);
        assert(self@ =~= before.remove(i as int));
        assert forall|a: int, b: int|
            0 <= a < b < self@.len() && (#[trigger] self@[a].0.id) is Some implies self@[a].0.id
            != #[trigger] self@[b].0.id by {
            assert(self@[a] == before[if a < i { a } else { a + 1 }]);
            assert(self@[b] == before[if b < i { b } else { b + 1 }]);
        }
        Some(removed)
    }

    /// Adds a batch of records in order, skipping each whose id (or lack of
    /// one) is held already; the records are named by their ids.
    pub fn import_entries(&mut self, entries: Vec<EntryPayload>)
        requires
            old(self).wf(),
        ensures
            final(self).wf(),
            final(self)@ == imported(old(self)@, entry_views(entries@)),
    {
        let ghost start = self@;
        let ghost batch = entry_views(entries@);
        let mut i: usize = 0;
        while i < entries.len()
            invariant
                i <= entries.len(),
                batch == entry_views(entries@),
                self.wf(),
                self@ == imported(start, batch.take(i as int)),
            decreases entries.len() - i,
        {
            let mut e = entries[i].duplicate();
            e.image_base64 = None;
            let name = import_file_name(&e.id);
            assert(batch.take(i + 1).drop_last() =~= batch.take(i as int));
            self.add_if_new(e, name);
            i = i + 1;
        }
        assert(batch.take(entries.len() as int) =~= batch);
    }

    /// Rebuilds the cache from stored documents, given as file names and
    /// texts: files without the extension `json` and texts that are not
    /// JSON are skipped, and so is a record whose id is held already.
    pub fn from_documents(docs: Vec<(String, String)>) -> (r: ArchiveStore)
        ensures
            r.wf(),
            r@ == loaded(docs@),
    {
        let mut store = ArchiveStore::new();
        let mut i: usize = 0;
        while i < docs.len()
            invariant
                i <= docs.len(),
                store.wf(),
                store@ == loaded(docs@.take(i as int)),
            decreases docs.len() - i,
        {
            let (name, text) = &docs[i];
            assert(docs@.take(i + 1).drop_last() =~= docs@.take(i as int));
            assert(docs@.take(i + 1).last() == docs@[i as int]);
            if is_document_name(name.as_str()) {
                match load_document(text.as_str()) {
                    Some(e) => {
                        store.add_loaded(e, name.clone());
                    },
                    None => {},
                }
            }
            i = i + 1;
        }
        assert(docs@.take(docs.len() as int) =~= docs@);
        store
    }
}

/// Saving a draft that has no id succeeds exactly when the fresh id is
/// non-empty and not held; the id it gets then was not held before, and once
/// the record is added, looking that id up gives the draft's document fields
/// under that id.
pub proof fn lemma_save_then_get(
    s: Seq<(EntryView, Seq<char>)>,
    draft: EntryView,
    fresh: Seq<char>,
    modified: Seq<char>,
    name: Seq<char>,
)
    requires
        ids_distinct(s),
        draft.id is None,
    ensures
        (save_outcome(s, draft, fresh) is Ok) == (fresh.len() > 0 && !holds_id(s, Some(fresh))),
        save_outcome(s, draft, fresh) matches Ok(id) ==> {
            &&& id == fresh
            &&& id.len() > 0
            &&& !holds_id(s, Some(id))
            &&& lookup(committed(s, saved_record(draft, id, modified), name), id) == Some(
                saved_record(draft, id, modified),
            )
            &&& same_document_fields(saved_record(draft, id, modified), (EntryView { id: Some(id), ..draft }))
        },
{
    if save_outcome(s, draft, fresh) is Ok {
        let rec = saved_record(draft, fresh, modified);
        let t = s.push((rec, name));
        lemma_first_index(s, Some(fresh));
        assert forall|j: int| 0 <= j < s.len() implies #[trigger] t[j].0.id != Some(fresh) by {
            assert(t[j] == s[j]);
        }
        lemma_first_index_at(t, Some(fresh), s.len() as int);
    }
}

/// Updating an id that no record has leaves the cache as it is.
pub proof fn lemma_update_missing(s: Seq<(EntryView, Seq<char>)>, id: Seq<char>, u: EntryUpdate, modified: Seq<char>)
    requires
        !holds_id(s, Some(id)),
    ensures
        after_update(s, id, u, modified) == s,
        after_update(s, id, u, modified).len() == s.len(),
{
}

/// After a delete no record has the id; the cache shrinks by one where a
/// record had it and is unchanged where none had.
pub proof fn lemma_delete_removes(s: Seq<(EntryView, Seq<char>)>, id: Seq<char>)
    requires
        ids_distinct(s),
    ensures
        !holds_id(after_delete(s, id), Some(id)),
        lookup(after_delete(s, id), id) is None,
        holds_id(s, Some(id)) ==> after_delete(s, id).len() == s.len() - 1,
        !holds_id(s, Some(id)) ==> after_delete(s, id) == s,
{
    let k = first_index(s, Some(id));
    lemma_first_index(s, Some(id));
    let t = after_delete(s, id);
    lemma_first_index(t, Some(id));
    if k >= 0 && first_index(t, Some(id)) >= 0 {
        let j = first_index(t, Some(id));
        if j < k {
            assert(t[j] == s[j]);
        } else {
            assert(t[j] == s[j + 1]);
        }
    }
}

/// Importing one record whose id is held and one whose id is not adds
/// exactly the second, after the records already cached, which are unchanged.
pub proof fn lemma_import_known_and_new(s: Seq<(EntryView, Seq<char>)>, known: EntryView, new: EntryView)
    requires
        ids_distinct(s),
        holds_id(s, known.id),
        !holds_id(s, new.id),
    ensures
        imported(s, seq![known, new]).len() == s.len() + 1,
        imported(s, seq![known, new]).take(s.len() as int) == s,
        imported(s, seq![known, new]) == s.push((without_image(new), import_name(new.id))),
{
    let b = seq![known, new];
    assert(b.drop_last() =~= seq![known]);
    assert(seq![known].drop_last() =~= Seq::<EntryView>::empty());
    assert(imported(s, Seq::<EntryView>::empty()) == s);
    assert(seq![known].last() == known);
    assert(imported(s, seq![known]) == s);
    assert(b.last() == new);
    assert(s.push((without_image(new), import_name(new.id))).take(s.len() as int) =~= s);
}

} // verus!

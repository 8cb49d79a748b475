//! The attachment store.
//!
//! The store owns the engine's state: a catalog of attachment records, each
//! paired with exactly one stored blob — a record without a blob, or a blob
//! without a record, cannot be represented.  The four operations validate
//! their inputs, confine every untrusted identifier through the path guard
//! before anything else happens, and run payloads through the compression
//! codec on the way in and out.  The surrounding application mirrors the
//! blobs to disk; the store itself never touches the filesystem.

use crate::clock::now_unix;
use crate::codec::{
    decode_spec, decode_stored, encode_for_storage, starts_with_gzip_magic, stored_form,
    COMPRESSION_THRESHOLD, MAX_FILE_SIZE,
};
use crate::errors::AttachmentError;
use crate::ids::{fresh_id, id_char, id_text};
use crate::path_guard::{confine, confined, is_sep, lemma_single_component_confined};
use vstd::prelude::*;
use vstd::slice::slice_to_vec;

verus! {

/// The kind of container an attachment belongs to.
#[derive(Clone, Copy, Debug, PartialEq, Eq, Structural)]
pub enum ScopeKind {
    Project,
    Chat,
    Global,
}

/// The logical container an attachment belongs to: a project or chat with
/// its identifier, or the global scope with none.
#[derive(Debug)]
pub struct ScopeRef {
    pub kind: ScopeKind,
    pub scope_id: Option<String>,
}

/// The mathematical value of a [`ScopeRef`].
pub struct ScopeView {
    pub kind: ScopeKind,
    pub id: Option<Seq<char>>,
}

impl View for ScopeRef {
    type V = ScopeView;

    open spec fn view(&self) -> ScopeView {
        ScopeView {
            kind: self.kind,
            id: match self.scope_id {
                Some(s) => Some(s.view()),
                None => None,
            },
        }
    }
}

impl Clone for ScopeRef {
    fn clone(&self) -> (r: Self)
        ensures
            r@ == self@,
    {
        ScopeRef {
            kind: self.kind,
            scope_id: match &self.scope_id {
                Some(s) => Some(s.clone()),
                None => None,
            },
        }
    }
}

/// A scope the store accepts: a project or chat names a confined scope
/// identifier, the global scope names none.
pub open spec fn scope_ok(sv: ScopeView) -> bool {
    match sv.id {
        Some(s) => sv.kind != ScopeKind::Global && confined(s),
        None => sv.kind == ScopeKind::Global,
    }
}

/// Decides [`scope_ok`] for a scope reference.
pub fn check_scope(scope: &ScopeRef) -> (r: bool)
    ensures
        r == scope_ok(scope@),
{
    match &scope.scope_id {
        Some(s) => {
            let not_global = match scope.kind {
                ScopeKind::Global => false,
                _ => true,
            };
            not_global && confine(s.as_str()).is_ok()
        },
        None => match scope.kind {
            ScopeKind::Global => true,
            _ => false,
        },
    }
}

/// Decides equality of two scope references.
pub fn scope_eq(a: &ScopeRef, b: &ScopeRef) -> (r: bool)
    ensures
        r == (a@ == b@),
{
    if a.kind == b.kind {
        match (&a.scope_id, &b.scope_id) {
            (Some(x), Some(y)) => *x == *y,
            (None, None) => true,
            _ => false,
        }
    } else {
        false
    }
}

/// The record the catalog keeps for one attachment.  `size` is the length
/// of the original payload, `compressed_size` the length of the stored
/// blob; `is_compressed` is informational only — the read path decides by
/// sniffing the stored bytes, never by this flag.
#[derive(Debug)]
pub struct FileMetadata {
    pub id: String,
    pub name: String,
    pub size: u64,
    pub compressed_size: u64,
    pub mime_type: String,
    pub created_at: i64,
    pub scope: ScopeRef,
    pub is_compressed: bool,
}

/// The mathematical value of a [`FileMetadata`].
pub struct FileMetadataView {
    pub id: Seq<char>,
    pub name: Seq<char>,
    pub size: u64,
    pub compressed_size: u64,
    pub mime_type: Seq<char>,
    pub created_at: i64,
    pub scope: ScopeView,
    pub is_compressed: bool,
}

impl View for FileMetadata {
    type V = FileMetadataView;

    open spec fn view(&self) -> FileMetadataView {
        FileMetadataView {
            id: self.id.view(),
            name: self.name.view(),
            size: self.size,
            compressed_size: self.compressed_size,
            mime_type: self.mime_type.view(),
            created_at: self.created_at,
            scope: self.scope.view(),
            is_compressed: self.is_compressed,
        }
    }
}

impl DeepView for FileMetadata {
    type V = FileMetadataView;

    open spec fn deep_view(&self) -> FileMetadataView {
        self.view()
    }
}

impl Clone for FileMetadata {
    fn clone(&self) -> (r: Self)
        ensures
            r@ == self@,
    {
        FileMetadata {
            id: self.id.clone(),
            name: self.name.clone(),
            size: self.size,
            compressed_size: self.compressed_size,
            mime_type: self.mime_type.clone(),
            created_at: self.created_at,
            scope: self.scope.clone(),
            is_compressed: self.is_compressed,
        }
    }
}

/// The fixed MIME allow-list: exactly these six types may be saved.
pub open spec fn allowed_mime(m: Seq<char>) -> bool {
    ||| m == "text/plain"@
    ||| m == "text/markdown"@
    ||| m == "application/pdf"@
    ||| m == "image/jpeg"@
    ||| m == "image/png"@
    ||| m == "image/gif"@
}

/// Decides [`allowed_mime`] for a MIME type string.
pub fn is_allowed_mime(m: &str) -> (r: bool)
    ensures
        r == allowed_mime(m@),
{
    let s = m.to_owned();
    s == String::from_str("text/plain") || s == String::from_str("text/markdown") || s
        == String::from_str("application/pdf") || s == String::from_str("image/jpeg") || s
        == String::from_str("image/png") || s == String::from_str("image/gif")
}

/// One stored attachment: its catalog record, the blob as stored, and —
/// as a ghost companion — the original payload the blob stands for.
struct StoredEntry {
    record: FileMetadata,
    blob: Vec<u8>,
    payload: Ghost<Seq<u8>>,
}

/// The mathematical value of one stored attachment.
pub struct EntryView {
    pub record: FileMetadataView,
    pub blob: Seq<u8>,
    pub payload: Seq<u8>,
}

impl View for StoredEntry {
    type V = EntryView;

    closed spec fn view(&self) -> EntryView {
        EntryView { record: self.record.view(), blob: self.blob.view(), payload: self.payload@ }
    }
}

/// True when the entry `e` names the attachment `id` in scope `scope`.
pub open spec fn entry_matches(e: EntryView, scope: ScopeView, id: Seq<char>) -> bool {
    e.record.scope == scope && e.record.id == id
}

/// True when index `i` is the first entry of `s` naming `(scope, id)`.
pub open spec fn is_first_match(s: Seq<EntryView>, scope: ScopeView, id: Seq<char>, i: int) -> bool {
    &&& 0 <= i < s.len()
    &&& entry_matches(s[i], scope, id)
    &&& forall|j: int| 0 <= j < i ==> !entry_matches(#[trigger] s[j], scope, id)
}

/// True when some entry of `s` names `(scope, id)`.
pub open spec fn has_match(s: Seq<EntryView>, scope: ScopeView, id: Seq<char>) -> bool {
    exists|i: int| 0 <= i < s.len() && entry_matches(#[trigger] s[i], scope, id)
}

/// The records of `s` that belong to `scope`, in insertion order.
pub open spec fn records_for(s: Seq<EntryView>, scope: ScopeView) -> Seq<FileMetadataView>
    decreases s.len(),
{
    if s.len() == 0 {
        Seq::empty()
    } else {
        let prefix = records_for(s.drop_last(), scope);
        if s.last().record.scope == scope {
            prefix.push(s.last().record)
        } else {
            prefix
        }
    }
}

/// The permission that attachment commands demand of their caller.
pub open spec fn fs_permission() -> Seq<char> {
    "fs:default"@
}

/// The authorization predicate the dispatch layer consults before any
/// store call: whether the calling context holds the filesystem
/// permission.  The store itself performs no authorization — only
/// validation and confinement.
pub fn has_fs_permission(permissions: &Vec<String>) -> (r: bool)
    ensures
        r == permissions.deep_view().contains(fs_permission()),
{
    let needed = String::from_str("fs:default");
    let n = permissions.len();
    let mut k: usize = 0;
    while k < n
        invariant
            n == permissions@.len(),
            0 <= k <= n,
            needed@ == fs_permission(),
            forall|j: int| 0 <= j < k ==> (#[trigger] permissions.deep_view()[j]) != fs_permission(),
        decreases n - k,
    {
        if permissions[k] == needed {
            proof {
                assert(permissions.deep_view()[k as int] == fs_permission());
            }
            return true;
        }
        k = k + 1;
    }
    false
}

/// True when the record `rv` is consistent with the stored blob `blob`:
/// the stored size is the blob's length, and the blob is what the flag
/// says — a gzip stream whose decompression has the recorded original
/// size, or the original bytes themselves.
pub open spec fn restorable(rv: FileMetadataView, blob: Seq<u8>) -> bool {
    &&& rv.compressed_size == blob.len()
    &&& if rv.is_compressed {
        &&& starts_with_gzip_magic(blob)
        &&& match crate::codec::gunzip_of(blob) {
            Some(p) => p.len() == rv.size,
            None => false,
        }
    } else {
        blob.len() == rv.size
    }
}

/// The payload a restored entry stands for: the decompression of the blob
/// where the record marks it compressed, the blob itself otherwise.
pub open spec fn restored_payload(rv: FileMetadataView, blob: Seq<u8>) -> Seq<u8> {
    if rv.is_compressed {
        match crate::codec::gunzip_of(blob) {
            Some(p) => p,
            None => Seq::empty(),
        }
    } else {
        blob
    }
}

/// The attachment store: the catalog and the blobs it governs, kept in one
/// sequence so that every record has exactly one blob by construction.
pub struct AttachmentStore {
    entries: Vec<StoredEntry>,
}

/// Everything the store promises of each entry it holds: an allow-listed
/// MIME type, a payload within the size cap, sizes that match payload and
/// blob, a blob that is a storable form of the payload, and confined
/// identifiers.
pub open spec fn entry_inv(e: EntryView) -> bool {
    &&& allowed_mime(e.record.mime_type)
    &&& e.record.size == e.payload.len()
    &&& e.record.size <= MAX_FILE_SIZE
    &&& e.record.compressed_size == e.blob.len()
    &&& stored_form(e.payload, e.blob, e.record.is_compressed)
    &&& confined(e.record.id)
    &&& scope_ok(e.record.scope)
}

/// The mathematical value of a sequence of stored entries.
spec fn entries_view(v: Seq<StoredEntry>) -> Seq<EntryView> {
    Seq::new(v.len(), |i: int| v[i].view())
}

impl View for AttachmentStore {
    type V = Seq<EntryView>;

    closed spec fn view(&self) -> Seq<EntryView> {
        entries_view(self.entries.view())
    }
}

impl AttachmentStore {
    #[verifier::type_invariant]
    spec fn inv(self) -> bool {
        forall|i: int| 0 <= i < self.view().len() ==> entry_inv(#[trigger] self.view()[i])
    }

    /// Creates an empty store.
    pub fn new() -> (s: Self)
        ensures
            s@ == Seq::<EntryView>::empty(),
    {
        let s = AttachmentStore { entries: Vec::new() };
        proof {
            assert(s@ =~= Seq::<EntryView>::empty());
        }
        s
    }

    /// The first entry naming `(scope, id)`, if any.
    fn find(&self, scope: &ScopeRef, id: &String) -> (r: Option<usize>)
        ensures
            r matches Some(i) ==> is_first_match(self@, scope@, id@, i as int),
            r is None ==> !has_match(self@, scope@, id@),
    {
        let n = self.entries.len();
        let mut k: usize = 0;
        while k < n
            invariant
                n == self@.len(),
                0 <= k <= n,
                forall|j: int| 0 <= j < k ==> !entry_matches(#[trigger] self@[j], scope@, id@),
            decreases n - k,
        {
            let e = &self.entries[k];
            if scope_eq(&e.record.scope, scope) && e.record.id == *id {
                return Some(k);
            }
            k = k + 1;
        }
        None
    }

    /// Saves one attachment: rejects a MIME type outside the allow-list,
    /// then a payload above the size cap, then an unconfined scope — each
    /// with the store untouched — and otherwise allocates a fresh
    /// identifier, encodes the payload through the codec's threshold
    /// policy, appends record and blob together, and returns the record.
    /// Every earlier entry is left exactly as it was, so one save never
    /// overwrites another's blob.
    pub fn save(&mut self, scope: &ScopeRef, data: Vec<u8>, mime_type: String, display_name: String)
        -> (r: Result<FileMetadata, AttachmentError>)
        ensures
            !allowed_mime(mime_type@) ==> r == Err::<FileMetadata, AttachmentError>(
                AttachmentError::MimeRejected,
            ),
            allowed_mime(mime_type@) && data@.len() > MAX_FILE_SIZE ==> r == Err::<
                FileMetadata,
                AttachmentError,
            >(AttachmentError::TooLarge),
            allowed_mime(mime_type@) && data@.len() <= MAX_FILE_SIZE && !scope_ok(scope@) ==> r
                == Err::<FileMetadata, AttachmentError>(AttachmentError::Traversal),
            r is Err ==> final(self)@ == old(self)@,
            allowed_mime(mime_type@) && data@.len() <= MAX_FILE_SIZE && scope_ok(scope@)
                ==> r is Ok,
            r matches Ok(rec) ==> {
                &&& final(self)@.len() == old(self)@.len() + 1
                &&& final(self)@.drop_last() == old(self)@
                &&& final(self)@.last().record == rec@
                &&& final(self)@.last().payload == data@
                &&& stored_form(data@, final(self)@.last().blob, rec@.is_compressed)
                &&& rec@.name == display_name@
                &&& rec@.mime_type == mime_type@
                &&& rec@.scope == scope@
                &&& rec@.size == data@.len()
                &&& rec@.compressed_size == final(self)@.last().blob.len()
                &&& rec@.is_compressed == (data@.len() > COMPRESSION_THRESHOLD)
                &&& id_text(rec@.id)
                &&& confined(rec@.id)
            },
    {
        proof {
            use_type_invariant(&*self);
        }
        if !is_allowed_mime(mime_type.as_str()) {
            return Err(AttachmentError::MimeRejected);
        }
        if data.len() as u64 > MAX_FILE_SIZE {
            return Err(AttachmentError::TooLarge);
        }
        if !check_scope(scope) {
            return Err(AttachmentError::Traversal);
        }
        let id = fresh_id();
        proof {
            assert forall|i: int| 0 <= i < id@.len() implies !is_sep(#[trigger] id@[i]) by {
                assert(id_char(id@[i]));
            }
            lemma_single_component_confined(id@);
        }
        let (blob, is_compressed) = encode_for_storage(data.as_slice());
        let created_at = now_unix();
        let record = FileMetadata {
            id,
            name: display_name,
            size: data.len() as u64,
            compressed_size: blob.len() as u64,
            mime_type,
            created_at,
            scope: scope.clone(),
            is_compressed,
        };
        let returned = record.clone();
        let ghost prior = self@;
        let entry = StoredEntry { record, blob, payload: Ghost(data@) };
        let mut entries: Vec<StoredEntry> = Vec::new();
        core::mem::swap(&mut entries, &mut self.entries);
        entries.push(entry);
        proof {
            assert(entries_view(entries@) =~= prior.push(entry@));
            assert(entry_inv(entry@));
        }
        core::mem::swap(&mut entries, &mut self.entries);
        proof {
            assert(self@ =~= prior.push(entry@));
            assert(self@.drop_last() =~= prior);
        }
        Ok(returned)
    }

    /// Reads one attachment back: confines scope and identifier before
    /// anything else, reports `NotFound` where no record names them, and
    /// otherwise decodes the stored blob by sniffing — an entry that was
    /// stored compressed, or whose payload does not itself open with the
    /// gzip magic bytes, comes back as exactly the bytes that were saved.
    pub fn get(&self, scope: &ScopeRef, id: &String) -> (r: Result<Vec<u8>, AttachmentError>)
        ensures
            !(scope_ok(scope@) && confined(id@)) ==> r == Err::<Vec<u8>, AttachmentError>(
                AttachmentError::Traversal,
            ),
            scope_ok(scope@) && confined(id@) && !has_match(self@, scope@, id@) ==> r == Err::<
                Vec<u8>,
                AttachmentError,
            >(AttachmentError::NotFound),
            scope_ok(scope@) && confined(id@) ==> forall|i: int|
                is_first_match(self@, scope@, id@, i) ==> {
                    let e = #[trigger] self@[i];
                    &&& ((e.record.is_compressed || !starts_with_gzip_magic(e.payload))
                        ==> (r matches Ok(d) && d@ == e.payload))
                    &&& (r matches Ok(d) ==> decode_spec(e.blob) == Some(d@))
                    &&& (r matches Err(er) ==> er == AttachmentError::DecompressionFailed)
                },
    {
        proof {
            use_type_invariant(self);
        }
        if !check_scope(scope) {
            return Err(AttachmentError::Traversal);
        }
        if confine(id.as_str()).is_err() {
            return Err(AttachmentError::Traversal);
        }
        match self.find(scope, id) {
            None => Err(AttachmentError::NotFound),
            Some(i) => {
                let e = &self.entries[i];
                proof {
                    assert(entry_inv(e@));
                    if e@.record.is_compressed || !starts_with_gzip_magic(e@.payload) {
                        crate::codec::lemma_storage_round_trip(
                            e@.payload,
                            e@.blob,
                            e@.record.is_compressed,
                        );
                    }
                }
                decode_stored(e.blob.as_slice())
            },
        }
    }

    /// Re-adopts a record and its stored blob — as mirrored to durable
    /// storage by an earlier run — after a restart.  The inputs are
    /// revalidated exactly as a save would validate them, the record must
    /// be consistent with the blob ([`restorable`]), and the entry then
    /// joins the catalog as if it had just been saved.
    pub fn restore(&mut self, record: FileMetadata, blob: Vec<u8>) -> (r: Result<
        (),
        AttachmentError,
    >)
        ensures
            !allowed_mime(record@.mime_type) ==> r == Err::<(), AttachmentError>(
                AttachmentError::MimeRejected,
            ),
            allowed_mime(record@.mime_type) && record@.size > MAX_FILE_SIZE ==> r == Err::<
                (),
                AttachmentError,
            >(AttachmentError::TooLarge),
            allowed_mime(record@.mime_type) && record@.size <= MAX_FILE_SIZE && !(scope_ok(
                record@.scope,
            ) && confined(record@.id)) ==> r == Err::<(), AttachmentError>(
                AttachmentError::Traversal,
            ),
            allowed_mime(record@.mime_type) && record@.size <= MAX_FILE_SIZE && scope_ok(
                record@.scope,
            ) && confined(record@.id) ==> if restorable(record@, blob@) {
                r is Ok
            } else {
                r == Err::<(), AttachmentError>(AttachmentError::IOFailure)
            },
            r is Err ==> final(self)@ == old(self)@,
            r is Ok ==> final(self)@ == old(self)@.push(
                EntryView {
                    record: record@,
                    blob: blob@,
                    payload: restored_payload(record@, blob@),
                },
            ),
    {
        proof {
            use_type_invariant(&*self);
        }
        if !is_allowed_mime(record.mime_type.as_str()) {
            return Err(AttachmentError::MimeRejected);
        }
        if record.size > MAX_FILE_SIZE {
            return Err(AttachmentError::TooLarge);
        }
        if !check_scope(&record.scope) {
            return Err(AttachmentError::Traversal);
        }
        if confine(record.id.as_str()).is_err() {
            return Err(AttachmentError::Traversal);
        }
        if record.compressed_size != blob.len() as u64 {
            return Err(AttachmentError::IOFailure);
        }
        let ghost prior = self@;
        let entry: StoredEntry;
        if record.is_compressed {
            if !(blob.len() >= 2 && blob[0] == 0x1f && blob[1] == 0x8b) {
                return Err(AttachmentError::IOFailure);
            }
            let decoded = match decode_stored(blob.as_slice()) {
                Ok(d) => d,
                Err(_) => {
                    return Err(AttachmentError::IOFailure);
                },
            };
            if decoded.len() as u64 != record.size {
                return Err(AttachmentError::IOFailure);
            }
            entry = StoredEntry { record, blob, payload: Ghost(decoded@) };
        } else {
            if blob.len() as u64 != record.size {
                return Err(AttachmentError::IOFailure);
            }
            let ghost payload = blob@;
            entry = StoredEntry { record, blob, payload: Ghost(payload) };
        }
        proof {
            assert(entry_inv(entry@));
        }
        let mut entries: Vec<StoredEntry> = Vec::new();
        core::mem::swap(&mut entries, &mut self.entries);
        entries.push(entry);
        proof {
            assert(entries_view(entries@) =~= prior.push(entry@));
        }
        core::mem::swap(&mut entries, &mut self.entries);
        proof {
            assert(self@ =~= prior.push(entry@));
        }
        Ok(())
    }

    /// The stored form of one attachment's blob — the exact bytes the
    /// codec produced on save — for the surrounding application to mirror
    /// to durable storage.
    pub fn stored_bytes(&self, scope: &ScopeRef, id: &String) -> (r: Result<
        Vec<u8>,
        AttachmentError,
    >)
        ensures
            !(scope_ok(scope@) && confined(id@)) ==> r == Err::<Vec<u8>, AttachmentError>(
                AttachmentError::Traversal,
            ),
            scope_ok(scope@) && confined(id@) && !has_match(self@, scope@, id@) ==> r == Err::<
                Vec<u8>,
                AttachmentError,
            >(AttachmentError::NotFound),
            scope_ok(scope@) && confined(id@) ==> forall|i: int|
                is_first_match(self@, scope@, id@, i) ==> (r matches Ok(b) && b@ == (
                #[trigger] self@[i]).blob),
    {
        if !check_scope(scope) {
            return Err(AttachmentError::Traversal);
        }
        if confine(id.as_str()).is_err() {
            return Err(AttachmentError::Traversal);
        }
        match self.find(scope, id) {
            None => Err(AttachmentError::NotFound),
            Some(i) => Ok(slice_to_vec(self.entries[i].blob.as_slice())),
        }
    }

    /// Deletes one attachment: confines scope and identifier first,
    /// reports `NotFound` where no record names them — deleting the same
    /// identifier twice succeeds once and then reports `NotFound` — and
    /// otherwise removes record and blob together, leaving every other
    /// entry as it was.
    pub fn delete(&mut self, scope: &ScopeRef, id: &String) -> (r: Result<(), AttachmentError>)
        ensures
            !(scope_ok(scope@) && confined(id@)) ==> r == Err::<(), AttachmentError>(
                AttachmentError::Traversal,
            ) && final(self)@ == old(self)@,
            scope_ok(scope@) && confined(id@) && !has_match(old(self)@, scope@, id@) ==> r
                == Err::<(), AttachmentError>(AttachmentError::NotFound) && final(self)@ == old(
                self,
            )@,
            scope_ok(scope@) && confined(id@) ==> forall|i: int|
                #[trigger] is_first_match(old(self)@, scope@, id@, i) ==> {
                    &&& r is Ok
                    &&& final(self)@ == old(self)@.remove(i)
                },
    {
        proof {
            use_type_invariant(&*self);
        }
        if !check_scope(scope) {
            return Err(AttachmentError::Traversal);
        }
        if confine(id.as_str()).is_err() {
            return Err(AttachmentError::Traversal);
        }
        match self.find(scope, id) {
            None => Err(AttachmentError::NotFound),
            Some(i) => {
                let ghost prior = self@;
                let mut entries: Vec<StoredEntry> = Vec::new();
                core::mem::swap(&mut entries, &mut self.entries);
                entries.remove(i);
                proof {
                    assert(entries_view(entries@) =~= prior.remove(i as int));
                    assert forall|k: int| 0 <= k < prior.remove(i as int).len() implies entry_inv(
                        #[trigger] prior.remove(i as int)[k],
                    ) by {
                        if k < i {
                            assert(prior.remove(i as int)[k] == prior[k]);
                        } else {
                            assert(prior.remove(i as int)[k] == prior[k + 1]);
                        }
                    }
                }
                core::mem::swap(&mut entries, &mut self.entries);
                proof {
                    assert(self@ =~= prior.remove(i as int));
                }
                Ok(())
            },
        }
    }

    /// Lists the catalog records of one scope, in insertion order, without
    /// touching any blob.
    pub fn list(&self, scope: &ScopeRef) -> (r: Vec<FileMetadata>)
        ensures
            r.deep_view() == records_for(self@, scope@),
    {
        proof {
            use_type_invariant(self);
        }
        let n = self.entries.len();
        let mut out: Vec<FileMetadata> = Vec::new();
        proof {
            assert(self@.subrange(0, 0) =~= Seq::<EntryView>::empty());
            assert(out.deep_view() =~= Seq::<FileMetadataView>::empty());
        }
        let mut k: usize = 0;
        while k < n
            invariant
                n == self@.len(),
                n == self.entries@.len(),
                0 <= k <= n,
                out.deep_view() == records_for(self@.subrange(0, k as int), scope@),
            decreases n - k,
        {
            let e = &self.entries[k];
            let ghost pre = out.deep_view();
            if scope_eq(&e.record.scope, scope) {
                out.push(e.record.clone());
                proof {
                    assert(out.deep_view() =~= pre.push(e@.record));
                }
            }
            proof {
                assert(self@.subrange(0, k + 1).drop_last() =~= self@.subrange(0, k as int));
                assert(self@.subrange(0, k + 1).last() == self@[k as int]);
            }
            k = k + 1;
        }
        proof {
            assert(self@.subrange(0, n as int) =~= self@);
        }
        out
    }
}

/// The round trip: an entry appended under an identifier no earlier entry
/// carries — as every successful save appends one — is the entry a read
/// of that identifier finds, and, as long as it was stored compressed or
/// its payload does not itself open with the gzip magic bytes, its stored
/// blob decodes on the read path to exactly the payload that was saved.
pub proof fn lemma_saved_entry_round_trips(pre: Seq<EntryView>, e: EntryView)
    requires
        !has_match(pre, e.record.scope, e.record.id),
        stored_form(e.payload, e.blob, e.record.is_compressed),
        e.record.is_compressed || !starts_with_gzip_magic(e.payload),
    ensures
        is_first_match(pre.push(e), e.record.scope, e.record.id, pre.len() as int),
        crate::codec::decode_spec(e.blob) == Some(e.payload),
{
    assert forall|j: int| 0 <= j < pre.len() implies !entry_matches(
        #[trigger] pre.push(e)[j],
        e.record.scope,
        e.record.id,
    ) by {
        assert(pre.push(e)[j] == pre[j]);
    }
    crate::codec::lemma_storage_round_trip(e.payload, e.blob, e.record.is_compressed);
}

/// Every appended entry is listable: listing its scope after a save shows
/// exactly the records listed before with the new record at the end, and
/// the listing of every other scope is unchanged — so a run of saves into
/// one scope yields one listable record each.
pub proof fn lemma_saved_entry_is_listed(pre: Seq<EntryView>, e: EntryView)
    ensures
        records_for(pre.push(e), e.record.scope) == records_for(pre, e.record.scope).push(
            e.record,
        ),
        forall|scope: ScopeView|
            scope != e.record.scope ==> #[trigger] records_for(pre.push(e), scope) == records_for(
                pre,
                scope,
            ),
{
    assert(pre.push(e).drop_last() =~= pre);
}

/// Safe repeated deletion: once the only entry naming `(scope, id)` is
/// removed, no entry names it any more, so — by the contract of
/// [`AttachmentStore::delete`] — a second deletion of the same identifier
/// reports `NotFound` instead of touching anything.
pub proof fn lemma_delete_leaves_no_match(
    s: Seq<EntryView>,
    scope: ScopeView,
    id: Seq<char>,
    i: int,
)
    requires
        is_first_match(s, scope, id, i),
        forall|j: int| i < j < s.len() ==> !entry_matches(#[trigger] s[j], scope, id),
    ensures
        !has_match(s.remove(i), scope, id),
{
    let removed = s.remove(i);
    assert forall|k: int| 0 <= k < removed.len() implies !entry_matches(
        #[trigger] removed[k],
        scope,
        id,
    ) by {
        if k < i {
            assert(removed[k] == s[k]);
        } else {
            assert(removed[k] == s[k + 1]);
        }
    }
}

} // verus!

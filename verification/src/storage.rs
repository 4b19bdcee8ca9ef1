//! Durable key-value persistence of whole documents over a redb store.
//!
//! The store holds one table, `documents`, mapping a document's 128-bit
//! identifier to its encoded bytes (see [`crate::codec`]). The logical
//! contents of a database are named by the uninterpreted map
//! [`db_view`]; every trusted wrapper around a redb call states its
//! effect on that map, and the verified operations build on them.
//!
//! Every operation is one transaction: it either fully replaces the
//! value at a key or aborts leaving the prior contents untouched.

use vstd::prelude::*;

use redb::{ReadableDatabase, ReadableTable};

use crate::codec::{dec_doc, decode_document, doc_enc_ok, enc_doc, encode_document};
use crate::document::Document;

verus! {

#[verifier::external_type_specification]
#[verifier::external_body]
pub struct ExDatabase(redb::Database);

#[verifier::external_type_specification]
#[verifier::external_body]
pub struct ExRedbError(redb::Error);

/// The logical contents of a redb database's `documents` table: the map
/// from key to stored bytes.
pub uninterp spec fn db_view(db: redb::Database) -> Map<u128, Seq<u8>>;

/// Whether a store holds no document at all.
pub open spec fn store_is_empty(m: Map<u128, Seq<u8>>) -> bool {
    forall|k: u128| !m.contains_key(k)
}

/// The smallest key of a store; meaningful only when the store is not
/// empty. The backing table iterates in ascending key order, so this is
/// the first document a full scan yields.
pub open spec fn first_key(m: Map<u128, Seq<u8>>) -> u128 {
    choose|k: u128|
        m.contains_key(k) && (forall|k2: u128| #[trigger] m.contains_key(k2) ==> k <= k2)
}

/// How a storage operation fails.
#[derive(Debug, Clone, Copy, PartialEq, Eq, Structural)]
pub enum StorageError {
    /// The backing store could not be prepared at all.
    Initialization,
    /// A read transaction failed.
    Read,
    /// A write transaction failed; the prior contents are untouched.
    Write,
    /// A stored value does not decode as a document.
    Deserialization,
}

impl StorageError {
    /// A short description, for surfacing the failure to the user.
    pub fn describe(&self) -> (r: &'static str)
        ensures
            *self is Initialization ==> r@ == "failed to open the document store"@,
            *self is Read ==> r@ == "failed to read from the document store"@,
            *self is Write ==> r@ == "failed to write to the document store"@,
            *self is Deserialization ==> r@ == "stored document data is malformed"@,
    {
        match self {
            StorageError::Initialization => "failed to open the document store",
            StorageError::Read => "failed to read from the document store",
            StorageError::Write => "failed to write to the document store",
            StorageError::Deserialization => "stored document data is malformed",
        }
    }
}

/// Durable storage of documents, keyed by document identifier.
pub struct Storage {
    db: redb::Database,
}

impl View for Storage {
    type V = Map<u128, Seq<u8>>;

    closed spec fn view(&self) -> Map<u128, Seq<u8>> {
        db_view(self.db)
    }
}

impl Storage {
    /// Relies on redb `WriteTransaction::open_table`: opening a table in
    /// a write transaction creates it when absent and leaves the stored
    /// pairs unchanged; on failure the transaction aborts on drop.
    #[verifier::external_body]
    fn ensure_table(&mut self) -> (r: Result<(), redb::Error>)
        ensures
            db_view(final(self).db) == db_view(old(self).db),
    {
        let td: redb::TableDefinition<u128, &[u8]> = redb::TableDefinition::new("documents");
        let txn = self.db.begin_write()?;
        {
            let _table = txn.open_table(td)?;
        }
        txn.commit()?;
        Ok(())
    }

    /// Relies on redb `Table::insert` inside one committed write
    /// transaction: an upsert of the pair; on any failure the
    /// transaction aborts on drop and the contents are unchanged.
    #[verifier::external_body]
    fn put_raw(&mut self, key: u128, value: &Vec<u8>) -> (r: Result<(), redb::Error>)
        ensures
            r is Ok ==> db_view(final(self).db) == db_view(old(self).db).insert(key, value@),
            r is Err ==> db_view(final(self).db) == db_view(old(self).db),
    {
        let td: redb::TableDefinition<u128, &[u8]> = redb::TableDefinition::new("documents");
        let txn = self.db.begin_write()?;
        {
            let mut table = txn.open_table(td)?;
            table.insert(&key, value.as_slice())?;
        }
        txn.commit()?;
        Ok(())
    }

    /// Relies on redb `ReadableTable::get` in a read transaction: it
    /// returns the value stored at the key, or nothing when the key is
    /// absent.
    #[verifier::external_body]
    fn get_raw(&self, key: u128) -> (r: Result<Option<Vec<u8>>, redb::Error>)
        ensures
            r matches Ok(Some(v)) ==> db_view(self.db).contains_key(key) && v@ == db_view(
                self.db,
            )[key],
            r matches Ok(None) ==> !db_view(self.db).contains_key(key),
    {
        let td: redb::TableDefinition<u128, &[u8]> = redb::TableDefinition::new("documents");
        let txn = self.db.begin_read()?;
        let table = txn.open_table(td)?;
        match table.get(&key)? {
            Some(guard) => Ok(Some(guard.value().to_vec())),
            None => Ok(None),
        }
    }

    /// Relies on redb `ReadableTable::iter` in a read transaction: a
    /// full scan yields every stored pair exactly once, in ascending
    /// key order (the table is a B-tree over `u128` keys).
    #[verifier::external_body]
    fn scan_raw(&self) -> (r: Result<Vec<(u128, Vec<u8>)>, redb::Error>)
        ensures
            r matches Ok(entries) ==> {
                &&& forall|i: int, j: int|
                    0 <= i < j < entries@.len() ==> (#[trigger] entries@[i]).0 < (
                    #[trigger] entries@[j]).0
                &&& forall|i: int|
                    0 <= i < entries@.len() ==> db_view(self.db).contains_key(
                        (#[trigger] entries@[i]).0,
                    ) && entries@[i].1@ == db_view(self.db)[entries@[i].0]
                &&& forall|k: u128|
                    #[trigger] db_view(self.db).contains_key(k) ==> exists|i: int|
                        0 <= i < entries@.len() && (#[trigger] entries@[i]).0 == k
            },
    {
        let td: redb::TableDefinition<u128, &[u8]> = redb::TableDefinition::new("documents");
        let txn = self.db.begin_read()?;
        let table = txn.open_table(td)?;
        let mut out: Vec<(u128, Vec<u8>)> = Vec::new();
        for item in table.iter()? {
            let (kg, vg) = item?;
            out.push((kg.value(), vg.value().to_vec()));
        }
        Ok(out)
    }

    /// Relies on redb `Table::remove` inside one committed write
    /// transaction: it removes the key and reports whether a value was
    /// there; on failure the transaction aborts on drop.
    #[verifier::external_body]
    fn remove_raw(&mut self, key: u128) -> (r: Result<bool, redb::Error>)
        ensures
            r matches Ok(b) ==> db_view(final(self).db) == db_view(old(self).db).remove(key) && b
                == db_view(old(self).db).contains_key(key),
            r is Err ==> db_view(final(self).db) == db_view(old(self).db),
    {
        let td: redb::TableDefinition<u128, &[u8]> = redb::TableDefinition::new("documents");
        let txn = self.db.begin_write()?;
        let removed: bool;
        {
            let mut table = txn.open_table(td)?;
            removed = table.remove(&key)?.is_some();
        }
        txn.commit()?;
        Ok(removed)
    }

    /// Wraps an opened database, making sure the `documents` table
    /// exists so that later reads cannot fail merely for its absence.
    pub fn new(db: redb::Database) -> (r: Result<Storage, StorageError>)
        ensures
            r matches Ok(s) ==> s@ == db_view(db),
            r matches Err(e) ==> e == StorageError::Initialization,
    {
        let mut s = Storage { db };
        match s.ensure_table() {
            Ok(()) => Ok(s),
            Err(_) => Err(StorageError::Initialization),
        }
    }

    /// Upserts the document under its own identifier: on success the
    /// store maps `doc.id` to exactly the document's encoding; on
    /// failure the store is untouched and the caller may retry.
    pub fn save_document(&mut self, doc: &Document) -> (r: Result<(), StorageError>)
        ensures
            r is Ok ==> final(self)@ == old(self)@.insert(doc.id, enc_doc(doc@)),
            r is Err ==> final(self)@ == old(self)@,
            r matches Err(e) ==> e == StorageError::Write,
    {
        let bytes = encode_document(doc);
        match self.put_raw(doc.id, &bytes) {
            Ok(()) => Ok(()),
            Err(_) => Err(StorageError::Write),
        }
    }

    /// Loads the document stored under the identifier: `Ok(Some)` is
    /// its decoding, `Ok(None)` means the identifier is absent, and
    /// stored bytes that do not decode are a deserialization failure.
    pub fn load_document(&self, doc_id: u128) -> (r: Result<Option<Document>, StorageError>)
        ensures
            r matches Ok(Some(d)) ==> self@.contains_key(doc_id) && dec_doc(self@[doc_id])
                == Some(d@) && self@[doc_id] == enc_doc(d@),
            r matches Ok(None) ==> !self@.contains_key(doc_id),
            r matches Ok(o) ==> ((o is Some) == self@.contains_key(doc_id)),
            r matches Err(e) ==> e == StorageError::Read || e == StorageError::Deserialization,
    {
        match self.get_raw(doc_id) {
            Err(_) => Err(StorageError::Read),
            Ok(None) => Ok(None),
            Ok(Some(bytes)) => match decode_document(bytes.as_slice()) {
                Some(d) => {
                    proof {
                        crate::codec::lemma_codec_sound(bytes@, d@);
                    }
                    Ok(Some(d))
                },
                None => Err(StorageError::Deserialization),
            },
        }
    }

    /// Lists every stored document's identifier and title, in the
    /// store's scan order (ascending identifier). Fails if any stored
    /// value does not decode.
    pub fn list_documents(&self) -> (r: Result<Vec<(u128, String)>, StorageError>)
        ensures
            r matches Ok(list) ==> {
                &&& forall|i: int, j: int|
                    0 <= i < j < list@.len() ==> (#[trigger] list@[i]).0 < (#[trigger] list@[j]).0
                &&& forall|i: int|
                    0 <= i < list@.len() ==> self@.contains_key((#[trigger] list@[i]).0) && (
                    dec_doc(self@[list@[i].0]) matches Some(dv) && dv.title == list@[i].1@)
                &&& forall|k: u128|
                    #[trigger] self@.contains_key(k) ==> exists|i: int|
                        0 <= i < list@.len() && (#[trigger] list@[i]).0 == k
            },
            r matches Err(e) ==> e == StorageError::Read || e == StorageError::Deserialization,
    {
        let entries = match self.scan_raw() {
            Ok(e) => e,
            Err(_) => {
                return Err(StorageError::Read);
            },
        };
        let n: usize = entries.len();
        let mut out: Vec<(u128, String)> = Vec::new();
        let mut i: usize = 0;
        while i < n
            invariant
                n == entries.len(),
                i <= n,
                out@.len() == i,
                forall|a: int, b: int|
                    0 <= a < b < n ==> (#[trigger] entries@[a]).0 < (#[trigger] entries@[b]).0,
                forall|a: int|
                    0 <= a < n ==> self@.contains_key((#[trigger] entries@[a]).0) && entries@[a].1@
                        == self@[entries@[a].0],
                forall|k: u128|
                    #[trigger] self@.contains_key(k) ==> exists|a: int|
                        0 <= a < n && (#[trigger] entries@[a]).0 == k,
                forall|j: int| 0 <= j < i ==> (#[trigger] out@[j]).0 == entries@[j].0,
                forall|j: int|
                    0 <= j < i ==> (dec_doc(self@[(#[trigger] out@[j]).0]) matches Some(dv)
                        && dv.title == out@[j].1@),
            decreases n - i,
        {
            let id: u128 = entries[i].0;
            match decode_document(entries[i].1.as_slice()) {
                Some(d) => {
                    out.push((id, d.title));
                },
                None => {
                    return Err(StorageError::Deserialization);
                },
            }
            i = i + 1;
        }
        proof {
            assert forall|k: u128| #[trigger] self@.contains_key(k) implies exists|a: int|
                0 <= a < out@.len() && (#[trigger] out@[a]).0 == k by {
                let a = choose|a: int| 0 <= a < n && (#[trigger] entries@[a]).0 == k;
                assert(out@[a].0 == k);
            }
        }
        Ok(out)
    }

    /// Deletes the document stored under the identifier, reporting
    /// whether one was there; on failure the store is untouched.
    pub fn delete_document(&mut self, doc_id: u128) -> (r: Result<bool, StorageError>)
        ensures
            r matches Ok(b) ==> final(self)@ == old(self)@.remove(doc_id) && b == old(
                self,
            )@.contains_key(doc_id),
            r is Err ==> final(self)@ == old(self)@,
            r matches Err(e) ==> e == StorageError::Write,
    {
        match self.remove_raw(doc_id) {
            Ok(b) => Ok(b),
            Err(_) => Err(StorageError::Write),
        }
    }

    /// Returns the first document a scan yields, or — when the store is
    /// empty, or its first value does not decode — creates, persists
    /// and returns a fresh empty document titled "My First Note". A
    /// first run is thereby idempotent: calling this twice with no
    /// other writes yields the same document.
    pub fn get_or_create_default(&mut self, now: u64) -> (r: Result<Document, StorageError>)
        ensures
            ({
                let m = old(self)@;
                &&& (r matches Ok(d) ==> (!store_is_empty(m) ==> (dec_doc(
                    m[first_key(m)],
                ) matches Some(dv) ==> d@ == dv && final(self)@ == m)))
                &&& (r matches Ok(d) ==> ((store_is_empty(m) || dec_doc(m[first_key(m)]) is None)
                    ==> d@.title == "My First Note"@ && d@.blocks
                    =~= Seq::<crate::document::StoredBlockView>::empty() && d@.created_at == now
                    && d@.updated_at == now && final(self)@ == m.insert(d@.id, enc_doc(d@))))
                &&& (r is Err ==> final(self)@ == m)
                &&& (r matches Err(e) ==> e == StorageError::Read || e == StorageError::Write)
            }),
    {
        let entries = match self.scan_raw() {
            Ok(e) => e,
            Err(_) => {
                return Err(StorageError::Read);
            },
        };
        if entries.len() > 0 {
            proof {
                let e0 = entries@[0].0;
                assert(self@.contains_key(e0));
                assert forall|k2: u128| #[trigger] self@.contains_key(k2) implies e0 <= k2 by {
                    let a = choose|a: int| 0 <= a < entries@.len() && (#[trigger] entries@[a]).0
                        == k2;
                    if a > 0 {
                        assert(entries@[0].0 < entries@[a].0);
                    }
                }
                let fk = first_key(self@);
                assert(self@.contains_key(fk) && (forall|k2: u128|
                    #[trigger] self@.contains_key(k2) ==> fk <= k2));
                assert(fk <= e0);
                assert(e0 <= fk);
                assert(first_key(self@) == e0);
            }
            match decode_document(entries[0].1.as_slice()) {
                Some(d) => {
                    return Ok(d);
                },
                None => {},
            }
        } else {
            proof {
                assert forall|k: u128| !self@.contains_key(k) by {
                    if self@.contains_key(k) {
                        let a = choose|a: int| 0 <= a < entries@.len() && (
                        #[trigger] entries@[a]).0 == k;
                    }
                }
            }
        }
        let doc = Document::new("My First Note".to_owned(), now);
        match self.save_document(&doc) {
            Ok(()) => Ok(doc),
            Err(e) => Err(e),
        }
    }
}

/// Save/load round trip: after a document is saved
/// ([`Storage::save_document`] maps its identifier to its encoding),
/// the stored bytes decode back to exactly that document — so a
/// successful [`Storage::load_document`] of that identifier yields a
/// document equal to it, in every field, whatever the store held
/// before.
pub proof fn lemma_save_load_round_trip(
    m: Map<u128, Seq<u8>>,
    d: crate::document::DocumentView,
)
    requires
        doc_enc_ok(d),
    ensures
        ({
            let m2 = m.insert(d.id, enc_doc(d));
            m2.contains_key(d.id) && dec_doc(m2[d.id]) == Some(d)
        }),
{
    crate::codec::lemma_codec_round_trip(d);
}

/// Bootstrap idempotence: when a fresh default document `d` has just
/// been persisted into an empty store, the store's first key is `d`'s
/// identifier and the stored bytes decode back to `d` — so a second
/// bootstrap with no intervening writes returns a document with the
/// same identifier (indeed the same document), and writes nothing.
pub proof fn lemma_bootstrap_idempotent(d: crate::document::DocumentView)
    requires
        doc_enc_ok(d),
    ensures
        ({
            let m = Map::<u128, Seq<u8>>::empty().insert(d.id, enc_doc(d));
            &&& !store_is_empty(m)
            &&& first_key(m) == d.id
            &&& dec_doc(m[first_key(m)]) == Some(d)
        }),
{
    let m = Map::<u128, Seq<u8>>::empty().insert(d.id, enc_doc(d));
    assert(m.contains_key(d.id));
    assert(forall|k2: u128| #[trigger] m.contains_key(k2) ==> d.id <= k2);
    let fk = first_key(m);
    assert(m.contains_key(fk) && (forall|k2: u128| #[trigger] m.contains_key(k2) ==> fk <= k2));
    assert(fk == d.id);
    crate::codec::lemma_codec_round_trip(d);
}

} // verus!

//! The persisted form of the authorization set: seven-byte records one after
//! the other, with no header, no length and no checksum.

use crate::access::AuthorizationSet;
use crate::identifier::{as_id, lemma_as_id, OneWireId};
use crate::seqs::lemma_take_next_to_set;
use vstd::prelude::*;

verus! {

/// Why stored bytes are not a sequence of records.
#[derive(Clone, Copy, Debug, PartialEq, Eq, Structural)]
pub enum PersistenceError {
    /// The bytes end in a fragment that is shorter than a record.
    TruncatedRecord,
}

/// The bytes that store `ids`: their records in the order given.
pub open spec fn record_bytes(ids: Seq<OneWireId>) -> Seq<u8> {
    Seq::new(7 * ids.len(), |k: int| ids[k / 7]@[k % 7])
}

/// The identifiers that `bytes` store, or `None` where the length of
/// `bytes` is no multiple of seven.
pub open spec fn records_of(bytes: Seq<u8>) -> Option<Seq<OneWireId>> {
    if bytes.len() % 7 == 0 {
        Some(Seq::new((bytes.len() / 7) as nat, |i: int| as_id(bytes.subrange(7 * i, 7 * i + 7))))
    } else {
        None
    }
}

/// `bytes` store exactly the identifiers in `members`, each of them once.
pub open spec fn stores(bytes: Seq<u8>, members: Set<OneWireId>) -> bool {
    match records_of(bytes) {
        Some(ids) => ids.no_duplicates() && ids.to_set() == members,
        None => false,
    }
}

/// What is stored is read back as it was: the records of `ids`, decoded,
/// are `ids` again, in the same order.
pub proof fn lemma_records_round_trip(ids: Seq<OneWireId>)
    ensures
        records_of(record_bytes(ids)) == Some(ids),
{
    let bytes = record_bytes(ids);
    let back = records_of(bytes).unwrap();
    assert(back.len() == ids.len());
    assert forall|i: int| 0 <= i < ids.len() implies back[i] == ids[i] by {
        assert(bytes.subrange(7 * i, 7 * i + 7) =~= ids[i]@);
        lemma_as_id(ids[i]);
    }
    assert(back =~= ids);
}

/// A set that is stored and loaded again has the same members: bytes that
/// store `members` are read back as records whose set is `members`.
pub proof fn lemma_save_then_load(members: Set<OneWireId>, bytes: Seq<u8>)
    requires
        stores(bytes, members),
    ensures
        records_of(bytes) is Some,
        records_of(bytes).unwrap().to_set() == members,
{
}

/// The records of a listing without duplicates store the set of what it
/// lists.
pub proof fn lemma_records_store_their_set(ids: Seq<OneWireId>)
    requires
        ids.no_duplicates(),
    ensures
        stores(record_bytes(ids), ids.to_set()),
{
    lemma_records_round_trip(ids);
}

/// Writes the records of `ids`, in order.
pub fn encode_records(ids: &Vec<OneWireId>) -> (bytes: Vec<u8>)
    ensures
        bytes@ == record_bytes(ids@),
{
    let mut bytes: Vec<u8> = Vec::new();
    let mut i: usize = 0;
    while i < ids.len()
        invariant
            i <= ids.len(),
            bytes@ == record_bytes(ids@.take(i as int)),
        decreases ids.len() - i,
    {
        let id = &ids[i];
        let ghost before = bytes@;
        let mut j: usize = 0;
        while j < 7
            invariant
                j <= 7,
                i < ids.len(),
                *id == ids@[i as int],
                bytes@ == before + id@.take(j as int),
            decreases 7 - j,
        {
            bytes.push(id[j]);
            proof {
                assert(id@.take(j + 1) =~= id@.take(j as int).push(id@[j as int]));
            }
            j += 1;
        }
        proof {
            assert(id@.take(7) =~= id@);
            assert(before + id@ =~= record_bytes(ids@.take(i + 1)));
        }
        i += 1;
    }
    proof {
        assert(ids@.take(i as int) =~= ids@);
    }
    bytes
}

/// Reads the records in `bytes`.
///
/// Fails when `bytes` end in a fragment of a record.
pub fn decode_records(bytes: &[u8]) -> (decoded: Result<Vec<OneWireId>, PersistenceError>)
    ensures
        match decoded {
            Ok(ids) => records_of(bytes@) == Some(ids@),
            Err(e) => e == PersistenceError::TruncatedRecord && records_of(bytes@) is None,
        },
{
    if bytes.len() % 7 != 0 {
        return Err(PersistenceError::TruncatedRecord);
    }
    let count: usize = bytes.len() / 7;
    let ghost all = records_of(bytes@).unwrap();
    let mut ids: Vec<OneWireId> = Vec::new();
    let mut i: usize = 0;
    while i < count
        invariant
            i <= count,
            bytes@.len() <= usize::MAX,
            count == bytes@.len() / 7,
            bytes@.len() % 7 == 0,
            all == records_of(bytes@).unwrap(),
            ids@ == all.take(i as int),
        decreases count - i,
    {
        let base: usize = 7 * i;
        let mut id: OneWireId = [0u8; 7];
        let mut j: usize = 0;
        while j < 7
            invariant
                j <= 7,
                bytes@.len() <= usize::MAX,
                base + 7 <= bytes@.len(),
                forall|k: int| 0 <= k < j ==> id@[k] == bytes@[base + k],
            decreases 7 - j,
        {
            id[j] = bytes[base + j];
            j += 1;
        }
        proof {
            assert(id@ =~= bytes@.subrange(7 * i, 7 * i + 7));
            lemma_as_id(id);
            assert(all.take(i + 1) =~= all.take(i as int).push(id));
        }
        ids.push(id);
        i += 1;
    }
    proof {
        assert(all.take(i as int) =~= all);
    }
    Ok(ids)
}

/// The bytes to store for `list`: one record for each member.
///
/// The order of the records is left open.
pub fn serialize_1w_devices(list: &AuthorizationSet) -> (bytes: Vec<u8>)
    ensures
        stores(bytes@, list.members()),
{
    let ids = list.to_vec();
    proof {
        lemma_records_store_their_set(ids@);
    }
    encode_records(&ids)
}

/// The set that `bytes` store.
///
/// Fails when `bytes` end in a fragment of a record, and only then. A
/// record that occurs twice counts once.
pub fn deserialize_1w_devices(bytes: &[u8]) -> (loaded: Result<
    AuthorizationSet,
    PersistenceError,
>)
    ensures
        match loaded {
            Ok(list) => records_of(bytes@) is Some && list.members() == records_of(
                bytes@,
            ).unwrap().to_set(),
            Err(e) => e == PersistenceError::TruncatedRecord && records_of(bytes@) is None,
        },
{
    let ids = match decode_records(bytes) {
        Ok(ids) => ids,
        Err(e) => {
            return Err(e);
        },
    };
    let mut list = AuthorizationSet::new();
    let mut i: usize = 0;
    while i < ids.len()
        invariant
            i <= ids.len(),
            list.members() == ids@.take(i as int).to_set(),
        decreases ids.len() - i,
    {
        list.insert(ids[i]);
        proof {
            lemma_take_next_to_set(ids@, i as int);
        }
        i += 1;
    }
    proof {
        assert(ids@.take(i as int) =~= ids@);
    }
    Ok(list)
}

} // verus!

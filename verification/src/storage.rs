//! The persistence bridge: the dataset's three collections are serialized as
//! three sibling byte artifacts, and importing what export wrote reproduces
//! the collections bit for bit, in order.
//!
//! Each collection is framed as a record count followed by length-prefixed
//! records, every number as eight little-endian bytes.

use crate::dataset::{Account, GenesisObject, Transaction};
use vstd::bytes::{
    lemma_auto_spec_u64_to_from_le_bytes, spec_u64_from_le_bytes, spec_u64_to_le_bytes,
    u64_from_le_bytes, u64_to_le_bytes,
};
use vstd::prelude::*;

verus! {

/// A dataset item the bridge can persist: a record carried as plain bytes.
pub trait Record: View<V = Seq<u8>> + Sized {
    /// The serialized bytes of this record.
    fn payload(&self) -> (b: &Vec<u8>)
        ensures
            b@ == self@,
    ;

    /// Rebuilds a record from its serialized bytes.
    fn from_payload(b: Vec<u8>) -> (r: Self)
        ensures
            r@ == b@,
    ;
}

impl Record for Account {
    fn payload(&self) -> (b: &Vec<u8>) {
        &self.data
    }

    fn from_payload(b: Vec<u8>) -> (r: Account) {
        Account { data: b }
    }
}

impl Record for GenesisObject {
    fn payload(&self) -> (b: &Vec<u8>) {
        &self.data
    }

    fn from_payload(b: Vec<u8>) -> (r: GenesisObject) {
        GenesisObject { data: b }
    }
}

impl Record for Transaction {
    fn payload(&self) -> (b: &Vec<u8>) {
        &self.data
    }

    fn from_payload(b: Vec<u8>) -> (r: Transaction) {
        Transaction { data: b }
    }
}

/// The byte sequences of a sequence of records.
pub open spec fn record_views<T: View<V = Seq<u8>>>(s: Seq<T>) -> Seq<Seq<u8>> {
    s.map_values(|t: T| t@)
}

/// One encoded record: its length as eight little-endian bytes, then its
/// bytes.
pub open spec fn enc_record(r: Seq<u8>) -> Seq<u8> {
    spec_u64_to_le_bytes(r.len() as u64) + r
}

/// The records of a collection, encoded one after the other.
pub open spec fn enc_list(rs: Seq<Seq<u8>>) -> Seq<u8>
    decreases rs.len(),
{
    if rs.len() == 0 {
        Seq::empty()
    } else {
        enc_record(rs.first()) + enc_list(rs.drop_first())
    }
}

/// One encoded collection: the record count as eight little-endian bytes,
/// then the encoded records.
pub open spec fn enc_records(rs: Seq<Seq<u8>>) -> Seq<u8> {
    spec_u64_to_le_bytes(rs.len() as u64) + enc_list(rs)
}

/// Decodes exactly `n` records from `b`, requiring `b` to be wholly consumed.
pub open spec fn dec_list(b: Seq<u8>, n: nat) -> Option<Seq<Seq<u8>>>
    decreases n,
{
    if n == 0 {
        if b.len() == 0 {
            Some(Seq::empty())
        } else {
            None
        }
    } else if b.len() < 8 {
        None
    } else {
        let len = spec_u64_from_le_bytes(b.take(8)) as int;
        if b.len() - 8 < len {
            None
        } else {
            match dec_list(b.skip(8 + len), (n - 1) as nat) {
                Some(rest) => Some(seq![b.subrange(8, 8 + len)] + rest),
                None => None,
            }
        }
    }
}

/// Decodes one collection, the exact structural inverse of `enc_records`.
pub open spec fn dec_records(b: Seq<u8>) -> Option<Seq<Seq<u8>>> {
    if b.len() < 8 {
        None
    } else {
        dec_list(b.skip(8), spec_u64_from_le_bytes(b.take(8)) as nat)
    }
}

proof fn lemma_dec_enc_list(rs: Seq<Seq<u8>>)
    requires
        forall|i: int| 0 <= i < rs.len() ==> (#[trigger] rs[i]).len() <= u64::MAX,
    ensures
        dec_list(enc_list(rs), rs.len() as nat) == Some(rs),
    decreases rs.len(),
{
    lemma_auto_spec_u64_to_from_le_bytes();
    if rs.len() == 0 {
    } else {
        let r0 = rs.first();
        let rest = rs.drop_first();
        let b = enc_list(rs);
        let prefix = spec_u64_to_le_bytes(r0.len() as u64);
        assert(rs[0].len() <= u64::MAX);
        assert(prefix.len() == 8);
        assert(b.take(8) =~= prefix);
        assert(spec_u64_from_le_bytes(b.take(8)) == r0.len() as u64);
        let len = r0.len() as int;
        assert(b.len() == 8 + len + enc_list(rest).len());
        assert(b.subrange(8, 8 + len) =~= r0);
        assert(b.skip(8 + len) =~= enc_list(rest));
        assert(forall|i: int|
            0 <= i < rest.len() ==> (#[trigger] rest[i]).len() <= u64::MAX) by {
            assert(forall|i: int| 0 <= i < rest.len() ==> rest[i] == rs[i + 1]);
        }
        lemma_dec_enc_list(rest);
        assert(seq![r0] + rest =~= rs);
    }
}

/// The decoder is the exact inverse of the encoder on every collection whose
/// record count and record lengths fit the eight-byte frames.
pub proof fn lemma_dec_enc_records(rs: Seq<Seq<u8>>)
    requires
        rs.len() <= u64::MAX,
        forall|i: int| 0 <= i < rs.len() ==> (#[trigger] rs[i]).len() <= u64::MAX,
    ensures
        dec_records(enc_records(rs)) == Some(rs),
{
    lemma_auto_spec_u64_to_from_le_bytes();
    let b = enc_records(rs);
    let prefix = spec_u64_to_le_bytes(rs.len() as u64);
    assert(prefix.len() == 8);
    assert(b.take(8) =~= prefix);
    assert(b.skip(8) =~= enc_list(rs));
    lemma_dec_enc_list(rs);
}

/// Copies `len` bytes of `bytes` starting at `start`.
fn copy_range(bytes: &Vec<u8>, start: usize, len: usize) -> (out: Vec<u8>)
    requires
        start + len <= bytes@.len(),
    ensures
        out@ == bytes@.subrange(start as int, start as int + len as int),
{
    let total = bytes.len();
    let mut out: Vec<u8> = Vec::new();
    let mut i: usize = 0;
    while i < len
        invariant
            i <= len,
            total == bytes@.len(),
            start + len <= bytes@.len(),
            out@ =~= bytes@.subrange(start as int, start as int + i as int),
        decreases len - i,
    {
        out.push(bytes[start + i]);
        i = i + 1;
        assert(out@ =~= bytes@.subrange(start as int, start as int + i as int));
    }
    out
}

/// Reads the eight-byte little-endian number at `pos`.
fn read_u64_at(bytes: &Vec<u8>, pos: usize) -> (x: u64)
    requires
        pos + 8 <= bytes@.len(),
    ensures
        x == spec_u64_from_le_bytes(bytes@.subrange(pos as int, pos as int + 8)),
{
    let tmp = copy_range(bytes, pos, 8);
    u64_from_le_bytes(tmp.as_slice())
}

fn enc_tail<T: Record>(items: &Vec<T>, i: usize) -> (out: Vec<u8>)
    requires
        i <= items@.len(),
    ensures
        out@ == enc_list(record_views(items@.skip(i as int))),
    decreases items@.len() - i,
{
    if i == items.len() {
        let out: Vec<u8> = Vec::new();
        assert(record_views(items@.skip(i as int)) =~= Seq::<Seq<u8>>::empty());
        out
    } else {
        let ghost s = record_views(items@.skip(i as int));
        let item = &items[i];
        let p = item.payload();
        let mut out = u64_to_le_bytes(p.len() as u64);
        let mut payload = copy_range(p, 0, p.len());
        assert(payload@ =~= p@);
        out.append(&mut payload);
        let mut rest = enc_tail(items, i + 1);
        out.append(&mut rest);
        proof {
            assert(s.first() == items@[i as int]@);
            assert(s.drop_first() =~= record_views(items@.skip(i as int + 1)));
            assert(out@ =~= enc_record(s.first()) + enc_list(s.drop_first()));
        }
        out
    }
}

/// Encodes one collection of records as one byte artifact.
pub fn encode_records<T: Record>(items: &Vec<T>) -> (out: Vec<u8>)
    ensures
        out@ == enc_records(record_views(items@)),
{
    let mut out = u64_to_le_bytes(items.len() as u64);
    let mut rest = enc_tail(items, 0);
    assert(items@.skip(0) =~= items@);
    out.append(&mut rest);
    out
}

fn dec_tail<T: Record>(bytes: &Vec<u8>, pos: usize, n: u64) -> (r: Option<Vec<T>>)
    requires
        pos <= bytes@.len(),
    ensures
        match r {
            Some(v) => dec_list(bytes@.skip(pos as int), n as nat) == Some(record_views(v@)),
            None => dec_list(bytes@.skip(pos as int), n as nat) is None,
        },
    decreases n,
{
    let ghost b = bytes@.skip(pos as int);
    if n == 0 {
        if pos == bytes.len() {
            let v: Vec<T> = Vec::new();
            assert(record_views(v@) =~= Seq::<Seq<u8>>::empty());
            Some(v)
        } else {
            None
        }
    } else if bytes.len() - pos < 8 {
        None
    } else {
        let len64 = read_u64_at(bytes, pos);
        proof {
            assert(b.take(8) =~= bytes@.subrange(pos as int, pos as int + 8));
        }
        let rem: usize = bytes.len() - pos - 8;
        if len64 > rem as u64 {
            None
        } else {
            let len: usize = len64 as usize;
            let payload = copy_range(bytes, pos + 8, len);
            proof {
                assert(b.subrange(8, 8 + len64 as int) =~= bytes@.subrange(
                    pos as int + 8,
                    pos as int + 8 + len as int,
                ));
            }
            let item: T = Record::from_payload(payload);
            let tail = dec_tail::<T>(bytes, pos + 8 + len, n - 1);
            proof {
                assert(b.skip(8 + len64 as int) =~= bytes@.skip(pos as int + 8 + len as int));
            }
            match tail {
                None => None,
                Some(mut rest) => {
                    let ghost rest_views = record_views(rest@);
                    rest.insert(0, item);
                    proof {
                        assert(record_views(rest@) =~= seq![b.subrange(8, 8 + len64 as int)]
                            + rest_views);
                    }
                    Some(rest)
                },
            }
        }
    }
}

/// Decodes one byte artifact back into its collection of records. Returns
/// `None` exactly when the bytes are not the encoding of any collection.
pub fn decode_records<T: Record>(bytes: &Vec<u8>) -> (r: Option<Vec<T>>)
    ensures
        match r {
            Some(v) => dec_records(bytes@) == Some(record_views(v@)),
            None => dec_records(bytes@) is None,
        },
{
    if bytes.len() < 8 {
        None
    } else {
        let n = read_u64_at(bytes, 0);
        proof {
            assert(bytes@.take(8) =~= bytes@.subrange(0, 8));
        }
        dec_tail::<T>(bytes, 8, n)
    }
}

/// The three sibling byte artifacts of one exported dataset.
pub struct DatasetFiles {
    pub accounts: Vec<u8>,
    pub genesis_objects: Vec<u8>,
    pub transactions: Vec<u8>,
}

/// What export writes for a dataset.
pub open spec fn spec_export(a: Seq<Seq<u8>>, g: Seq<Seq<u8>>, t: Seq<Seq<u8>>) -> (Seq<u8>, Seq<
    u8,
>, Seq<u8>) {
    (enc_records(a), enc_records(g), enc_records(t))
}

/// What import reads back from three artifacts, if they decode.
pub open spec fn spec_import(f: (Seq<u8>, Seq<u8>, Seq<u8>)) -> Option<
    (Seq<Seq<u8>>, Seq<Seq<u8>>, Seq<Seq<u8>>),
> {
    match (dec_records(f.0), dec_records(f.1), dec_records(f.2)) {
        (Some(a), Some(g), Some(t)) => Some((a, g, t)),
        _ => None,
    }
}

/// Round-trip law: for any dataset whose record counts and record lengths fit
/// the eight-byte frames, importing what export wrote yields the accounts,
/// genesis objects and transactions back unchanged, order included.
pub proof fn lemma_export_import_roundtrip(a: Seq<Seq<u8>>, g: Seq<Seq<u8>>, t: Seq<Seq<u8>>)
    requires
        a.len() <= u64::MAX,
        g.len() <= u64::MAX,
        t.len() <= u64::MAX,
        forall|i: int| 0 <= i < a.len() ==> (#[trigger] a[i]).len() <= u64::MAX,
        forall|i: int| 0 <= i < g.len() ==> (#[trigger] g[i]).len() <= u64::MAX,
        forall|i: int| 0 <= i < t.len() ==> (#[trigger] t[i]).len() <= u64::MAX,
    ensures
        spec_import(spec_export(a, g, t)) == Some((a, g, t)),
{
    lemma_dec_enc_records(a);
    lemma_dec_enc_records(g);
    lemma_dec_enc_records(t);
}

/// Serializes the three collections of a generated dataset as the three
/// sibling artifacts of its working directory.
pub fn export_dataset(
    accounts: &Vec<Account>,
    genesis_objects: &Vec<GenesisObject>,
    transactions: &Vec<Transaction>,
) -> (f: DatasetFiles)
    ensures
        f.accounts@ == enc_records(record_views(accounts@)),
        f.genesis_objects@ == enc_records(record_views(genesis_objects@)),
        f.transactions@ == enc_records(record_views(transactions@)),
{
    DatasetFiles {
        accounts: encode_records(accounts),
        genesis_objects: encode_records(genesis_objects),
        transactions: encode_records(transactions),
    }
}

/// Reads a dataset back from its three artifacts: the exact structural
/// inverse of `export_dataset`. Returns `None` exactly when some artifact is
/// not the encoding of any collection.
pub fn import_dataset(f: &DatasetFiles) -> (r: Option<
    (Vec<Account>, Vec<GenesisObject>, Vec<Transaction>),
>)
    ensures
        r is Some <==> spec_import((f.accounts@, f.genesis_objects@, f.transactions@)) is Some,
        r matches Some((accounts, genesis_objects, transactions)) ==> spec_import(
            (f.accounts@, f.genesis_objects@, f.transactions@),
        ) == Some(
            (
                record_views(accounts@),
                record_views(genesis_objects@),
                record_views(transactions@),
            ),
        ),
{
    let accounts = decode_records::<Account>(&f.accounts);
    let genesis_objects = decode_records::<GenesisObject>(&f.genesis_objects);
    let transactions = decode_records::<Transaction>(&f.transactions);
    match (accounts, genesis_objects, transactions) {
        (Some(a), Some(g), Some(t)) => Some((a, g, t)),
        _ => None,
    }
}

} // verus!

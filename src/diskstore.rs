//! The on-disk form of the table: the bincode serialization of a pair of
//! parallel sequences, the keys and the values in the same order.

use vstd::prelude::*;
use vstd::utf8::encode_utf8;
use crate::coredb::{
    Coretable,
    Data,
    keys_of,
    vals_of,
    map_of,
    zip,
    unique_keys,
    lemma_map_of_dom,
};

verus! {

#[verifier::external_type_specification]
#[verifier::external_body]
pub struct ExBincodeErrorKind(bincode::ErrorKind);

/// The `k` low bytes of `n`, least significant first.
pub open spec fn le_bytes(n: nat, k: nat) -> Seq<u8>
    decreases k,
{
    if k == 0 {
        Seq::empty()
    } else {
        seq![(n % 256) as u8] + le_bytes(n / 256, (k - 1) as nat)
    }
}

/// A length as bincode's fixed-width encoding writes it: eight bytes,
/// little-endian.
pub open spec fn len_prefix(n: nat) -> Seq<u8> {
    le_bytes(n, 8)
}

/// Each string as its length in bytes, then its UTF-8 bytes.
pub open spec fn strings_body(keys: Seq<Seq<char>>) -> Seq<u8>
    decreases keys.len(),
{
    if keys.len() == 0 {
        Seq::empty()
    } else {
        strings_body(keys.drop_last()) + len_prefix(encode_utf8(keys.last()).len())
            + encode_utf8(keys.last())
    }
}

/// Each byte string as its length, then its bytes.
pub open spec fn blobs_body(vals: Seq<Seq<u8>>) -> Seq<u8>
    decreases vals.len(),
{
    if vals.len() == 0 {
        Seq::empty()
    } else {
        blobs_body(vals.drop_last()) + len_prefix(vals.last().len()) + vals.last()
    }
}

/// The bytes that bincode, with its default fixed-width little-endian
/// encoding, writes for a pair (keys, values): each sequence is its length
/// followed by its items.
pub open spec fn bincode_of(keys: Seq<Seq<char>>, vals: Seq<Seq<u8>>) -> Seq<u8> {
    len_prefix(keys.len()) + strings_body(keys) + len_prefix(vals.len()) + blobs_body(vals)
}

/// The keys as sequences of characters.
pub open spec fn key_views(keys: Seq<String>) -> Seq<Seq<char>> {
    keys.map_values(|s: String| s@)
}

/// The values as sequences of bytes.
pub open spec fn val_views(vals: Seq<Vec<u8>>) -> Seq<Seq<u8>> {
    vals.map_values(|v: Vec<u8>| v@)
}

/// Relies on `bincode::serialize` of a `(Vec<String>, Vec<Vec<u8>>)` pair:
/// it succeeds (no size limit, every sequence has a known length, the writer
/// is a `Vec`), and writes each sequence as a u64 little-endian length
/// followed by its items, a string as its length and UTF-8 bytes.
#[verifier::external_body]
fn serialize_pair(keys: &Vec<String>, vals: &Vec<Vec<u8>>) -> (r: Result<
    Vec<u8>,
    Box<bincode::ErrorKind>,
>)
    ensures
        r is Ok,
        r is Ok ==> r->Ok_0@ == bincode_of(key_views(keys@), val_views(vals@)),
{
    bincode::serialize(&(keys, vals))
}

/// Relies on `bincode::deserialize` into a `(Vec<String>, Vec<Vec<u8>>)`
/// pair: the bytes that `bincode::serialize` wrote for a pair read back as
/// that pair, and whatever it reads is the encoding of what it returns
/// followed by bytes it ignores (it reads a length, then that many items,
/// and allows trailing bytes).
#[verifier::external_body]
fn deserialize_pair(b: &[u8]) -> (r: Result<(Vec<String>, Vec<Vec<u8>>), Box<bincode::ErrorKind>>)
    ensures
        forall|k: Seq<Seq<char>>, v: Seq<Seq<u8>>|
            b@ == #[trigger] bincode_of(k, v) ==> r is Ok && key_views(r->Ok_0.0@) == k
                && val_views(r->Ok_0.1@) == v,
        r is Ok ==> bincode_of(key_views(r->Ok_0.0@), val_views(r->Ok_0.1@)).is_prefix_of(b@),
{
    bincode::deserialize(b)
}

/// Why the stored table could not be written or read.
#[derive(PartialEq, Eq, Structural, Clone, Copy, Debug)]
pub enum DiskError {
    /// The stored bytes are not a table.
    CorruptStore,
}

/// The bytes that stand for the table on disk: the keys, which are
/// unique, and the values, in storage order.
pub fn encode_table(table: &Coretable) -> (r: Vec<u8>)
    ensures
        unique_keys(keys_of(table.entries())),
        r@ == bincode_of(keys_of(table.entries()), vals_of(table.entries())),
{
    let (keys, vals) = table.columns();
    match serialize_pair(&keys, &vals) {
        Ok(b) => b,
        Err(_) => Vec::new(),
    }
}

/// The table that the stored bytes stand for. Where the same key occurs
/// twice, the later value wins.
pub fn decode_table(bytes: &[u8]) -> (r: Result<Coretable, DiskError>)
    ensures
        r is Ok ==> !r->Ok_0.terminating(),
        r is Err ==> r->Err_0 == DiskError::CorruptStore,
        (forall|k: Seq<Seq<char>>, v: Seq<Seq<u8>>| !#[trigger] bincode_of(k, v).is_prefix_of(bytes@))
            ==> r is Err,
        forall|k: Seq<Seq<char>>, v: Seq<Seq<u8>>|
            bytes@ == #[trigger] bincode_of(k, v) ==> {
                &&& (r is Ok <==> k.len() == v.len())
                &&& r is Ok ==> r->Ok_0@ == map_of(zip(k, v))
                &&& r is Ok && unique_keys(k) ==> r->Ok_0.entries() == zip(k, v)
            },
{
    match deserialize_pair(bytes) {
        Ok((keys, vals)) => table_from_columns(keys, vals),
        Err(_) => Err(DiskError::CorruptStore),
    }
}

/// The table built from parallel columns of keys and values: an error if
/// their lengths differ; otherwise the pairs inserted in order, a later
/// value winning over an earlier one with the same key.
pub fn table_from_columns(keys: Vec<String>, vals: Vec<Vec<u8>>) -> (r: Result<Coretable, DiskError>)
    ensures
        r is Err <==> keys@.len() != vals@.len(),
        r is Err ==> r->Err_0 == DiskError::CorruptStore,
        r is Ok ==> !r->Ok_0.terminating(),
        r is Ok ==> r->Ok_0@ == map_of(zip(key_views(keys@), val_views(vals@))),
        r is Ok && unique_keys(key_views(keys@)) ==> r->Ok_0.entries() == zip(
            key_views(keys@),
            val_views(vals@),
        ),
{
    if keys.len() != vals.len() {
        return Err(DiskError::CorruptStore);
    }
    let ghost kv = key_views(keys@);
    let ghost vv = val_views(vals@);
    let mut table = Coretable::new();
    let mut i: usize = 0;
    while i < keys.len()
        invariant
            keys@.len() == vals@.len(),
            kv == key_views(keys@),
            vv == val_views(vals@),
            i <= keys@.len(),
            !table.terminating(),
            table@ == map_of(zip(kv, vv).take(i as int)),
            unique_keys(kv) ==> table.entries() == zip(kv, vv).take(i as int),
        decreases keys@.len() - i,
    {
        let key = keys[i].clone();
        let val = vals[i].clone();
        assert(val@ =~= vals@[i as int]@);
        let ghost z = zip(kv, vv);
        assert(z.take(i + 1).drop_last() =~= z.take(i as int));
        let ghost pre = table.entries();
        proof {
            if unique_keys(kv) {
                lemma_map_of_dom(pre, kv[i as int]);
                if map_of(pre).contains_key(kv[i as int]) {
                    let j = choose|j: int| 0 <= j < pre.len() && pre[j].0 == kv[i as int];
                    assert(kv[j] == kv[i as int]);
                }
            }
        }
        table.put(key, Data::from_vec(val));
        assert(unique_keys(kv) ==> table.entries() =~= z.take(i + 1));
        i = i + 1;
    }
    assert(zip(kv, vv).take(keys@.len() as int) =~= zip(kv, vv));
    Ok(table)
}

/// Decoding the encoding of a table gives back its mapping: the pair that
/// encoding writes has columns of equal length, and zipping them rebuilds
/// the entries.
pub proof fn lemma_decode_encode(s: Seq<(Seq<char>, Seq<u8>)>)
    ensures
        keys_of(s).len() == vals_of(s).len(),
        zip(keys_of(s), vals_of(s)) == s,
        map_of(zip(keys_of(s), vals_of(s))) == map_of(s),
{
    assert(zip(keys_of(s), vals_of(s)) =~= s);
}

/// Encoding the table decoded from a file that the encoder wrote (columns of
/// equal length, keys unique) writes the same columns, hence the same bytes.
pub proof fn lemma_encode_decode(k: Seq<Seq<char>>, v: Seq<Seq<u8>>)
    requires
        k.len() == v.len(),
    ensures
        keys_of(zip(k, v)) == k,
        vals_of(zip(k, v)) == v,
        bincode_of(keys_of(zip(k, v)), vals_of(zip(k, v))) == bincode_of(k, v),
{
    assert(keys_of(zip(k, v)) =~= k);
    assert(vals_of(zip(k, v)) =~= v);
}

} // verus!

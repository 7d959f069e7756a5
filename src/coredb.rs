//! The core table: string keys mapped to immutable byte blobs, plus the
//! flag that tells background services to stop.

use vstd::prelude::*;
use vstd::string::StrSliceExecFns;
use vstd::utf8::encode_utf8;

verus! {

#[verifier::external_type_specification]
#[verifier::external_body]
pub struct ExBytes(bytes::Bytes);

/// What a `Bytes` buffer holds.
pub uninterp spec fn bytes_content(b: bytes::Bytes) -> Seq<u8>;

/// Relies on `Bytes::from(Vec<u8>)`: the buffer holds the vector's bytes.
#[verifier::external_body]
fn bytes_from_vec(v: Vec<u8>) -> (r: bytes::Bytes)
    ensures
        bytes_content(r) == v@,
{
    bytes::Bytes::from(v)
}

/// Relies on `Bytes::clone`: a second handle on the same buffer.
#[verifier::external_body]
fn bytes_clone(b: &bytes::Bytes) -> (r: bytes::Bytes)
    ensures
        bytes_content(r) == bytes_content(*b),
{
    b.clone()
}

/// Relies on `<[u8]>::to_vec` through `Bytes`' deref: a copy of the bytes.
#[verifier::external_body]
fn bytes_to_vec(b: &bytes::Bytes) -> (r: Vec<u8>)
    ensures
        r@ == bytes_content(*b),
{
    b.to_vec()
}

/// An immutable blob of bytes, cheap to clone.
pub struct Data {
    blob: bytes::Bytes,
}

impl View for Data {
    type V = Seq<u8>;

    closed spec fn view(&self) -> Seq<u8> {
        bytes_content(self.blob)
    }
}

impl Data {
    /// A blob holding the UTF-8 bytes of `val`.
    pub fn from_string(val: String) -> (r: Data)
        ensures
            r@ == encode_utf8(val@),
    {
        Data { blob: bytes_from_vec(val.as_str().as_bytes_vec()) }
    }

    /// A blob wrapping an existing buffer.
    pub fn from_blob(blob: bytes::Bytes) -> (r: Data)
        ensures
            r@ == bytes_content(blob),
    {
        Data { blob }
    }

    /// A blob holding a copy of `v`.
    pub fn from_vec(v: Vec<u8>) -> (r: Data)
        ensures
            r@ == v@,
    {
        Data { blob: bytes_from_vec(v) }
    }

    /// The inner buffer.
    pub fn get_blob(&self) -> (r: &bytes::Bytes)
        ensures
            bytes_content(*r) == self@,
    {
        &self.blob
    }

    /// A copy of the blob's bytes.
    pub fn to_vec(&self) -> (r: Vec<u8>)
        ensures
            r@ == self@,
    {
        bytes_to_vec(&self.blob)
    }

    /// Another handle on the same blob.
    pub fn duplicate(&self) -> (r: Data)
        ensures
            r@ == self@,
    {
        Data { blob: bytes_clone(&self.blob) }
    }
}

/// The keys of a sequence of entries.
pub open spec fn keys_of(s: Seq<(Seq<char>, Seq<u8>)>) -> Seq<Seq<char>> {
    s.map_values(|e: (Seq<char>, Seq<u8>)| e.0)
}

/// The values of a sequence of entries.
pub open spec fn vals_of(s: Seq<(Seq<char>, Seq<u8>)>) -> Seq<Seq<u8>> {
    s.map_values(|e: (Seq<char>, Seq<u8>)| e.1)
}

/// No key occurs twice.
pub open spec fn unique_keys(k: Seq<Seq<char>>) -> bool {
    forall|i: int, j: int| 0 <= i < j < k.len() ==> k[i] != k[j]
}

/// The mapping that inserting the entries in order produces: a later entry
/// wins over an earlier one with the same key.
pub open spec fn map_of(s: Seq<(Seq<char>, Seq<u8>)>) -> Map<Seq<char>, Seq<u8>>
    decreases s.len(),
{
    if s.len() == 0 {
        Map::empty()
    } else {
        map_of(s.drop_last()).insert(s.last().0, s.last().1)
    }
}

/// Keys and values paired up position by position.
pub open spec fn zip(k: Seq<Seq<char>>, v: Seq<Seq<u8>>) -> Seq<(Seq<char>, Seq<u8>)> {
    Seq::new(k.len(), |i: int| (k[i], v[i]))
}

/// A key is in the mapping exactly when some entry holds it.
pub proof fn lemma_map_of_dom(s: Seq<(Seq<char>, Seq<u8>)>, k: Seq<char>)
    ensures
        map_of(s).contains_key(k) <==> exists|i: int| 0 <= i < s.len() && s[i].0 == k,
    decreases s.len(),
{
    if s.len() > 0 {
        lemma_map_of_dom(s.drop_last(), k);
        if exists|i: int| 0 <= i < s.len() && s[i].0 == k {
            let i = choose|i: int| 0 <= i < s.len() && s[i].0 == k;
            if i < s.len() - 1 {
                assert(s.drop_last()[i].0 == k);
            }
        }
        if exists|i: int| 0 <= i < s.len() - 1 && s.drop_last()[i].0 == k {
            let i = choose|i: int| 0 <= i < s.len() - 1 && s.drop_last()[i].0 == k;
            assert(s[i].0 == k);
        }
    }
}

/// With unique keys, each entry's value is what the mapping gives its key.
proof fn lemma_map_of_index(s: Seq<(Seq<char>, Seq<u8>)>, i: int)
    requires
        unique_keys(keys_of(s)),
        0 <= i < s.len(),
    ensures
        map_of(s).contains_key(s[i].0),
        map_of(s)[s[i].0] == s[i].1,
    decreases s.len(),
{
    if i < s.len() - 1 {
        let t = s.drop_last();
        assert(keys_of(t) =~= keys_of(s).drop_last());
        lemma_map_of_index(t, i);
        assert(keys_of(s)[i] != keys_of(s)[s.len() - 1]);
        assert(t[i] == s[i]);
    }
}

/// With unique keys, the mapping has one key per entry.
proof fn lemma_map_of_len(s: Seq<(Seq<char>, Seq<u8>)>)
    requires
        unique_keys(keys_of(s)),
    ensures
        map_of(s).dom().finite(),
        map_of(s).len() == s.len(),
    decreases s.len(),
{
    if s.len() > 0 {
        let t = s.drop_last();
        assert(keys_of(t) =~= keys_of(s).drop_last());
        lemma_map_of_len(t);
        lemma_map_of_dom(t, s.last().0);
        if map_of(t).contains_key(s.last().0) {
            let i = choose|i: int| 0 <= i < t.len() && t[i].0 == s.last().0;
            assert(keys_of(s)[i] == keys_of(s)[s.len() - 1]);
        }
    }
}

/// With unique keys, replacing an entry's value replaces it in the mapping.
proof fn lemma_map_of_update(s: Seq<(Seq<char>, Seq<u8>)>, i: int, v: Seq<u8>)
    requires
        unique_keys(keys_of(s)),
        0 <= i < s.len(),
    ensures
        map_of(s.update(i, (s[i].0, v))) == map_of(s).insert(s[i].0, v),
    decreases s.len(),
{
    let u = s.update(i, (s[i].0, v));
    if i == s.len() - 1 {
        assert(u.drop_last() =~= s.drop_last());
        let t = s.drop_last();
        assert(keys_of(t) =~= keys_of(s).drop_last());
        lemma_map_of_dom(t, s[i].0);
        if map_of(t).contains_key(s[i].0) {
            let j = choose|j: int| 0 <= j < t.len() && t[j].0 == s[i].0;
            assert(keys_of(s)[j] == keys_of(s)[i]);
        }
        assert(map_of(u) =~= map_of(s).insert(s[i].0, v));
    } else {
        let t = s.drop_last();
        assert(keys_of(t) =~= keys_of(s).drop_last());
        assert(u.drop_last() =~= t.update(i, (t[i].0, v)));
        lemma_map_of_update(t, i, v);
        assert(keys_of(s)[i] != keys_of(s)[s.len() - 1]);
        assert(map_of(u) =~= map_of(s).insert(s[i].0, v));
    }
}

/// The table: the entries, in the order their keys were first inserted, and
/// the termination flag.
pub struct Coretable {
    coremap: Vec<(String, Data)>,
    terminate: bool,
}

impl Coretable {
    /// The entries as (key, value) pairs, in storage order.
    pub closed spec fn entries(&self) -> Seq<(Seq<char>, Seq<u8>)> {
        self.coremap@.map_values(|e: (String, Data)| (e.0@, e.1@))
    }

    /// Whether the table is shutting down.
    pub closed spec fn terminating(&self) -> bool {
        self.terminate
    }

    /// Keys are unique.
    #[verifier::type_invariant]
    spec fn inv(&self) -> bool {
        unique_keys(keys_of(self.entries()))
    }

    /// The mapping from keys to values.
    pub open spec fn view(&self) -> Map<Seq<char>, Seq<u8>> {
        map_of(self.entries())
    }

    /// An empty table that is not terminating.
    pub fn new() -> (r: Coretable)
        ensures
            r.entries() == Seq::<(Seq<char>, Seq<u8>)>::empty(),
            r@ == Map::<Seq<char>, Seq<u8>>::empty(),
            !r.terminating(),
    {
        let r = Coretable { coremap: Vec::new(), terminate: false };
        assert(r.entries() =~= Seq::<(Seq<char>, Seq<u8>)>::empty());
        r
    }

    /// Whether the table is shutting down: once set, background services
    /// stop at their next cycle.
    pub fn is_terminating(&self) -> (r: bool)
        ensures
            r == self.terminating(),
    {
        self.terminate
    }

    /// Marks the table as shutting down. The flag is never cleared.
    pub fn set_terminate(&mut self)
        ensures
            final(self).terminating(),
            final(self).entries() == old(self).entries(),
    {
        proof {
            use_type_invariant(&*self);
        }
        self.terminate = true;
    }

    /// The position of `key`, if it is stored.
    fn find(&self, key: &String) -> (r: Option<usize>)
        ensures
            match r {
                Some(i) => i < self.entries().len() && self.entries()[i as int].0 == key@,
                None => !self@.contains_key(key@),
            },
    {
        proof {
            use_type_invariant(&*self);
        }
        let mut i: usize = 0;
        while i < self.coremap.len()
            invariant
                i <= self.coremap@.len(),
                forall|j: int| 0 <= j < i ==> self.entries()[j].0 != key@,
            decreases self.coremap@.len() - i,
        {
            if self.coremap[i].0 == *key {
                return Some(i);
            }
            i = i + 1;
        }
        proof {
            lemma_map_of_dom(self.entries(), key@);
        }
        None
    }

    /// The value stored under `key`.
    pub fn get(&self, key: &String) -> (r: Option<&Data>)
        ensures
            match r {
                Some(d) => self@.contains_key(key@) && self@[key@] == d@,
                None => !self@.contains_key(key@),
            },
    {
        proof {
            use_type_invariant(&*self);
        }
        match self.find(key) {
            Some(i) => {
                proof {
                    lemma_map_of_index(self.entries(), i as int);
                }
                Some(&self.coremap[i].1)
            },
            None => None,
        }
    }

    /// The number of entries.
    pub fn len(&self) -> (r: usize)
        ensures
            r == self@.len(),
    {
        proof {
            use_type_invariant(&*self);
        }
        proof {
            lemma_map_of_len(self.entries());
        }
        self.coremap.len()
    }

    /// Stores `val` under `key` only if `key` is absent; says whether it did.
    pub fn insert_new(&mut self, key: String, val: Data) -> (r: bool)
        ensures
            r == !old(self)@.contains_key(key@),
            final(self)@ == (if r { old(self)@.insert(key@, val@) } else { old(self)@ }),
            r ==> final(self).entries() == old(self).entries().push((key@, val@)),
            final(self).terminating() == old(self).terminating(),
    {
        proof {
            use_type_invariant(&*self);
        }
        match self.find(&key) {
            Some(i) => {
                proof {
                    lemma_map_of_index(self.entries(), i as int);
                }
                false
            },
            None => {
                proof {
                    lemma_map_of_dom(self.entries(), key@);
                }
                let ghost pre = self.entries();
                let ghost kv = key@;
                let ghost vv = val@;
                let mut v: Vec<(String, Data)> = Vec::new();
                std::mem::swap(&mut v, &mut self.coremap);
                v.push((key, val));
                let ghost post = v@.map_values(|e: (String, Data)| (e.0@, e.1@));
                assert(post =~= pre.push((kv, vv)));
                assert forall|i: int, j: int|
                    0 <= i < j < keys_of(post).len() implies keys_of(post)[i] != keys_of(
                    post,
                )[j] by {
                    if j == pre.len() {
                        assert(pre[i].0 == keys_of(post)[i]);
                    } else {
                        assert(keys_of(pre)[i] == keys_of(post)[i]);
                        assert(keys_of(pre)[j] == keys_of(post)[j]);
                    }
                }
                self.coremap = v;
                assert(self.entries().drop_last() =~= pre);
                true
            },
        }
    }

    /// Replaces the value under `key` only if `key` is present; says whether
    /// it did.
    pub fn replace_existing(&mut self, key: String, val: Data) -> (r: bool)
        ensures
            r == old(self)@.contains_key(key@),
            final(self)@ == (if r { old(self)@.insert(key@, val@) } else { old(self)@ }),
            final(self).terminating() == old(self).terminating(),
    {
        proof {
            use_type_invariant(&*self);
        }
        match self.find(&key) {
            Some(i) => {
                let ghost pre = self.entries();
                proof {
                    lemma_map_of_index(pre, i as int);
                    lemma_map_of_update(pre, i as int, val@);
                }
                let ghost vv = val@;
                let mut v: Vec<(String, Data)> = Vec::new();
                std::mem::swap(&mut v, &mut self.coremap);
                v.set(i, (key, val));
                let ghost post = v@.map_values(|e: (String, Data)| (e.0@, e.1@));
                assert(post =~= pre.update(i as int, (pre[i as int].0, vv)));
                assert(keys_of(post) =~= keys_of(pre));
                self.coremap = v;
                true
            },
            None => false,
        }
    }

    /// Stores `val` under `key`, replacing any earlier value.
    pub fn put(&mut self, key: String, val: Data) -> (r: bool)
        ensures
            r == !old(self)@.contains_key(key@),
            final(self)@ == old(self)@.insert(key@, val@),
            r ==> final(self).entries() == old(self).entries().push((key@, val@)),
            final(self).terminating() == old(self).terminating(),
    {
        proof {
            use_type_invariant(&*self);
        }
        let ghost pre = self.entries();
        match self.find(&key) {
            Some(i) => {
                proof {
                    lemma_map_of_index(pre, i as int);
                }
                self.replace_existing(key, val);
                false
            },
            None => {
                self.insert_new(key, val);
                true
            },
        }
    }

    /// The entries, read-only.
    pub fn get_ref(&self) -> (r: &Vec<(String, Data)>)
        ensures
            r@.map_values(|e: (String, Data)| (e.0@, e.1@)) == self.entries(),
    {
        &self.coremap
    }

    /// The keys and the values in two parallel vectors, in storage order.
    pub fn columns(&self) -> (r: (Vec<String>, Vec<Vec<u8>>))
        ensures
            unique_keys(keys_of(self.entries())),
            r.0@.map_values(|s: String| s@) == keys_of(self.entries()),
            r.1@.map_values(|v: Vec<u8>| v@) == vals_of(self.entries()),
    {
        proof {
            use_type_invariant(&*self);
        }
        let mut keys: Vec<String> = Vec::new();
        let mut vals: Vec<Vec<u8>> = Vec::new();
        let mut i: usize = 0;
        while i < self.coremap.len()
            invariant
                i <= self.coremap@.len(),
                keys@.len() == i,
                vals@.len() == i,
                keys@.map_values(|s: String| s@) == keys_of(self.entries()).take(i as int),
                vals@.map_values(|v: Vec<u8>| v@) == vals_of(self.entries()).take(i as int),
            decreases self.coremap@.len() - i,
        {
            let ghost k0 = keys@;
            let ghost v0 = vals@;
            keys.push(self.coremap[i].0.clone());
            vals.push(self.coremap[i].1.to_vec());
            assert(self.entries()[i as int] == (self.coremap@[i as int].0@, self.coremap@[i as int].1@));
            assert forall|j: int| 0 <= j < i implies keys@[j]@ == keys_of(self.entries())[j] by {
                assert(keys@[j] == k0[j]);
                assert(k0.map_values(|s: String| s@)[j] == k0[j]@);
            }
            assert forall|j: int| 0 <= j < i implies vals@[j]@ == vals_of(self.entries())[j] by {
                assert(vals@[j] == v0[j]);
                assert(v0.map_values(|v: Vec<u8>| v@)[j] == v0[j]@);
            }
            assert(keys@.map_values(|s: String| s@) =~= keys_of(self.entries()).take(i + 1));
            assert(vals@.map_values(|v: Vec<u8>| v@) =~= vals_of(self.entries()).take(i + 1));
            i = i + 1;
        }
        assert(keys_of(self.entries()).take(i as int) =~= keys_of(self.entries()));
        assert(vals_of(self.entries()).take(i as int) =~= vals_of(self.entries()));
        (keys, vals)
    }

    /// Removes every entry.
    pub fn clear(&mut self)
        ensures
            final(self)@ == Map::<Seq<char>, Seq<u8>>::empty(),
            final(self).terminating() == old(self).terminating(),
    {
        self.coremap = Vec::new();
        assert(self.entries() =~= Seq::<(Seq<char>, Seq<u8>)>::empty());
    }
}

} // verus!

//! The key cache: certificates by fingerprint, filled from the key-discovery
//! service on a miss.

use crate::bytes::{bytes_eq, copy_bytes, to_bytes, first_index_of, lemma_first_index_of, lemma_prefix_first};
use crate::errors::PasteError;
use vstd::prelude::*;

verus! {

/// A known public key.
#[derive(Debug)]
pub struct PublicKey {
    /// The internal identifier.
    pub id: usize,
    /// The certificate's fingerprint.
    pub fingerprint: Vec<u8>,
    /// The serialized certificate.
    pub cert: Vec<u8>,
    /// The account tier flag.
    pub is_premium: bool,
}

/// A public key as a value.
pub struct KeyModel {
    pub id: usize,
    pub fingerprint: Seq<u8>,
    pub cert: Seq<u8>,
    pub is_premium: bool,
}

impl View for PublicKey {
    type V = KeyModel;

    open spec fn view(&self) -> KeyModel {
        KeyModel {
            id: self.id,
            fingerprint: self.fingerprint@,
            cert: self.cert@,
            is_premium: self.is_premium,
        }
    }
}

/// The fingerprints of the keys, in order.
pub open spec fn fingerprints(keys: Seq<KeyModel>) -> Seq<Seq<u8>> {
    keys.map_values(|k: KeyModel| k.fingerprint)
}

/// At most one key per fingerprint, and each key's identifier is its position.
pub open spec fn keys_wf(keys: Seq<KeyModel>) -> bool {
    &&& forall|i: int, j: int|
        0 <= i < j < keys.len() ==> #[trigger] keys[i].fingerprint != #[trigger] keys[j].fingerprint
    &&& forall|i: int| 0 <= i < keys.len() ==> #[trigger] keys[i].id == i
}

/// The outcome of looking a fingerprint up in the cache.
#[derive(Debug)]
pub enum Lookup {
    /// The key is known.
    Cached(PublicKey),
    /// The key is unknown: ask the key-discovery service.
    Discover,
}

/// The known public keys.
pub struct KeyCache {
    keys: Vec<PublicKey>,
}

impl View for KeyCache {
    type V = Seq<KeyModel>;

    closed spec fn view(&self) -> Seq<KeyModel> {
        self.keys@.map_values(|k: PublicKey| k@)
    }
}

/// A copy of a key.
fn copy_key(k: &PublicKey) -> (r: PublicKey)
    ensures
        r@ == k@,
{
    PublicKey {
        id: k.id,
        fingerprint: copy_bytes(&k.fingerprint),
        cert: copy_bytes(&k.cert),
        is_premium: k.is_premium,
    }
}

impl KeyCache {
    /// At most one key per fingerprint; identifiers are positions.
    pub closed spec fn wf(&self) -> bool {
        keys_wf(self@)
    }

    /// An empty cache.
    pub fn new() -> (r: KeyCache)
        ensures
            r.wf(),
            r@ == Seq::<KeyModel>::empty(),
    {
        let r = KeyCache { keys: Vec::new() };
        assert(r@ =~= Seq::<KeyModel>::empty());
        r
    }

    /// The number of known keys.
    pub fn len(&self) -> (r: usize)
        ensures
            r == self@.len(),
    {
        self.keys.len()
    }

    /// The position of the key with the given fingerprint.
    fn index_of(&self, fingerprint: &[u8]) -> (r: Option<usize>)
        ensures
            r == (match first_index_of(fingerprints(self@), fingerprint@) {
                Some(i) => Some(i as usize),
                None => None::<usize>,
            }),
            r matches Some(i) ==> i < self@.len(),
    {
        let ghost fps = fingerprints(self@);
        proof {
            lemma_first_index_of(fps, fingerprint@);
        }
        let mut i: usize = 0;
        while i < self.keys.len()
            invariant
                fps == fingerprints(self@),
                i <= self@.len(),
                self@.len() == self.keys@.len(),
                first_index_of(fps.subrange(0, i as int), fingerprint@) is None,
            decreases self.keys@.len() - i,
        {
            assert(fps.subrange(0, i + 1).drop_last() =~= fps.subrange(0, i as int));
            if bytes_eq(self.keys[i].fingerprint.as_slice(), fingerprint) {
                proof {
                    lemma_prefix_first(fps, fingerprint@, i as int);
                }
                return Some(i);
            }
            i = i + 1;
        }
        assert(fps.subrange(0, i as int) =~= fps);
        None
    }

    /// A copy of the key at position `i`.
    fn key_at(&self, i: usize) -> (r: PublicKey)
        requires
            i < self@.len(),
        ensures
            r@ == self@[i as int],
    {
        copy_key(&self.keys[i])
    }

    /// Looks a fingerprint up by exact match.
    pub fn lookup(&self, fingerprint: &[u8]) -> (r: Lookup)
        requires
            self.wf(),
        ensures
            match first_index_of(fingerprints(self@), fingerprint@) {
                Some(i) => r matches Lookup::Cached(k) && k@ == self@[i],
                None => r is Discover,
            },
    {
        proof {
            lemma_first_index_of(fingerprints(self@), fingerprint@);
            assert(fingerprints(self@).len() == self.keys.len());
        }
        match self.index_of(fingerprint) {
            Some(i) => Lookup::Cached(self.key_at(i)),
            None => Lookup::Discover,
        }
    }

    /// Takes the answer of the key-discovery service for a fingerprint. A
    /// certificate it found is stored as a new key, unless the fingerprint is
    /// known already, and returned; no answer is `CertificateUnknown`.
    pub fn record_discovery(&mut self, fingerprint: &[u8], fetched: Option<Vec<u8>>) -> (r: Result<
        PublicKey,
        PasteError,
    >)
        requires
            old(self).wf(),
        ensures
            final(self).wf(),
            match fetched {
                None => r matches Err(e) && e == PasteError::CertificateUnknown && final(self)@ == old(self)@,
                Some(c) => match first_index_of(fingerprints(old(self)@), fingerprint@) {
                    Some(i) => r matches Ok(k) && k@ == old(self)@[i] && final(self)@ == old(self)@,
                    None => r matches Ok(k) && k@ == new_key(old(self)@, fingerprint@, c@) && final(self)@
                        == old(self)@.push(k@),
                },
            },
    {
        proof {
            lemma_first_index_of(fingerprints(self@), fingerprint@);
            assert(fingerprints(self@).len() == self.keys.len());
        }
        match fetched {
            None => Err(PasteError::CertificateUnknown),
            Some(c) => match self.index_of(fingerprint) {
                Some(i) => Ok(self.key_at(i)),
                None => {
                    let ghost before = self@;
                    let key = PublicKey {
                        id: self.keys.len(),
                        fingerprint: to_bytes(fingerprint),
                        cert: copy_bytes(&c),
                        is_premium: false,
                    };
                    let out = copy_key(&key);
                    self.keys.push(key);
                    assert(self@ =~= before.push(out@));
                    proof {
                        assert forall|a: int, b: int| 0 <= a < b < self@.len() implies #[trigger] self@[a].fingerprint
                            != #[trigger] self@[b].fingerprint by {
                            if b == self@.len() - 1 {
                                assert(fingerprints(before)[a] == before[a].fingerprint);
                            }
                        }
                    }
                    Ok(out)
                },
            },
        }
    }
}

/// The key stored for a fingerprint seen for the first time.
pub open spec fn new_key(keys: Seq<KeyModel>, fingerprint: Seq<u8>, cert: Seq<u8>) -> KeyModel {
    KeyModel { id: keys.len() as usize, fingerprint, cert, is_premium: false }
}

/// A fingerprint that the cache did not know, once its discovered
/// certificate is stored, is found by the next lookup: the discovery service
/// is not asked again.
pub proof fn lemma_discovered_key_is_cached(keys: Seq<KeyModel>, fingerprint: Seq<u8>, cert: Seq<u8>)
    requires
        first_index_of(fingerprints(keys), fingerprint) is None,
    ensures
        first_index_of(
            fingerprints(keys.push(new_key(keys, fingerprint, cert))),
            fingerprint,
        ) == Some(keys.len() as int),
{
    let after = keys.push(new_key(keys, fingerprint, cert));
    lemma_first_index_of(fingerprints(keys), fingerprint);
    lemma_first_index_of(fingerprints(after), fingerprint);
    assert(fingerprints(after)[keys.len() as int] == fingerprint);
    assert forall|j: int| 0 <= j < keys.len() implies fingerprints(after)[j] != fingerprint by {
        assert(fingerprints(after)[j] == keys[j].fingerprint);
        assert(fingerprints(keys)[j] == keys[j].fingerprint);
    }
}

} // verus!

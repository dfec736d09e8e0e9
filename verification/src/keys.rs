//! Custodian public keys and the quorum they form.

use vstd::prelude::*;

verus! {

/// `bitcoin::PublicKey`, the parsed key. Nothing is known of what it holds.
#[verifier::external_type_specification]
#[verifier::external_body]
pub struct ExPublicKey(bitcoin::PublicKey);

/// `bitcoin::key::FromSliceError`, the error of a failed parse. Nothing is
/// known of what it holds.
#[verifier::external_type_specification]
#[verifier::external_body]
pub struct ExFromSliceError(bitcoin::key::FromSliceError);

/// Whether `bytes` is an encoding that `bitcoin::PublicKey::from_slice`
/// accepts: a point of the secp256k1 curve in its compressed or uncompressed
/// serialization.
pub uninterp spec fn is_key_encoding(bytes: Seq<u8>) -> bool;

/// The two lengths a serialized public key can have.
pub open spec fn is_key_length(len: nat) -> bool {
    len == 33 || len == 65
}

/// A serialized public key: bytes of one of the two key lengths that parse.
pub open spec fn is_public_key(bytes: Seq<u8>) -> bool {
    is_key_encoding(bytes) && is_key_length(bytes.len())
}

/// Calls `bitcoin::PublicKey::from_slice`. The parse succeeds exactly on the
/// encodings named by [`is_key_encoding`], and it rejects every length other
/// than 33 and 65 before it looks at the bytes.
#[verifier::external_body]
fn parse_public_key(bytes: &[u8]) -> (parsed: Result<
    bitcoin::PublicKey,
    bitcoin::key::FromSliceError,
>)
    ensures
        parsed is Ok <==> is_key_encoding(bytes@),
        parsed is Ok ==> is_key_length(bytes@.len()),
{
    bitcoin::PublicKey::from_slice(bytes)
}

/// Why a custodian key or key set was rejected.
#[derive(Clone, Copy, Debug, PartialEq, Eq, Structural)]
pub enum KeyError {
    /// The bytes are not a serialized secp256k1 public key.
    Malformed,
    /// The same key occurs twice in the set.
    Duplicate,
    /// The quorum is zero or exceeds the number of keys.
    QuorumOutOfRange,
}

/// A public key of one custodian, held in its serialized form.
#[derive(Debug)]
pub struct CustodianKey {
    bytes: Vec<u8>,
}

impl View for CustodianKey {
    type V = Seq<u8>;

    closed spec fn view(&self) -> Seq<u8> {
        self.bytes@
    }
}

impl CustodianKey {
    /// A key is well formed when its bytes are a serialized public key.
    pub open spec fn wf(&self) -> bool {
        is_public_key(self@)
    }

    /// Validates `bytes` as a serialized public key. Bytes of any length
    /// other than 33 and 65 are rejected.
    pub fn from_slice(bytes: &[u8]) -> (res: Result<CustodianKey, KeyError>)
        ensures
            res is Ok <==> is_key_encoding(bytes@),
            res is Ok ==> is_key_length(bytes@.len()),
            res matches Ok(key) ==> key@ == bytes@ && key.wf(),
            res matches Err(e) ==> e == KeyError::Malformed,
    {
        match parse_public_key(bytes) {
            Ok(_) => Ok(CustodianKey { bytes: vstd::slice::slice_to_vec(bytes) }),
            Err(_) => Err(KeyError::Malformed),
        }
    }

    /// The serialized key.
    pub fn as_bytes(&self) -> (bytes: &Vec<u8>)
        ensures
            bytes@ == self@,
    {
        &self.bytes
    }
}

impl Clone for CustodianKey {
    fn clone(&self) -> (copy: Self)
        ensures
            copy@ == self@,
    {
        CustodianKey { bytes: self.bytes.clone() }
    }
}

/// Compares two byte strings.
pub fn same_bytes(a: &Vec<u8>, b: &Vec<u8>) -> (same: bool)
    ensures
        same == (a@ == b@),
{
    if a.len() != b.len() {
        return false;
    }
    let mut i: usize = 0;
    while i < a.len()
        invariant
            a.len() == b.len(),
            i <= a.len(),
            forall|k: int| 0 <= k < i ==> a@[k] == b@[k],
        decreases a.len() - i,
    {
        if a[i] != b[i] {
            return false;
        }
        i = i + 1;
    }
    assert(a@ =~= b@);
    true
}

/// The encodings of a sequence of keys, in order.
pub open spec fn key_encodings(keys: Seq<CustodianKey>) -> Seq<Seq<u8>> {
    Seq::new(keys.len(), |i: int| keys[i]@)
}

/// No encoding occurs at two positions.
pub open spec fn pairwise_distinct(keys: Seq<Seq<u8>>) -> bool {
    forall|i: int, j: int| 0 <= i < j < keys.len() ==> keys[i] != keys[j]
}

/// A quorum is usable with `count` keys when it is positive and at most `count`.
pub open spec fn quorum_in_range(quorum: nat, count: nat) -> bool {
    1 <= quorum <= count
}

/// The contents of a sequence of byte strings, in order.
pub open spec fn byte_strings(items: Seq<Vec<u8>>) -> Seq<Seq<u8>> {
    Seq::new(items.len(), |i: int| items[i]@)
}

/// What keeps serialized keys and a quorum from forming a key set, if
/// anything does: a malformed key, else a duplicate, else a quorum that is
/// zero or larger than the number of keys.
pub open spec fn key_set_defect(encodings: Seq<Seq<u8>>, quorum: nat) -> Option<KeyError> {
    if exists|i: int| 0 <= i < encodings.len() && !is_key_encoding(#[trigger] encodings[i]) {
        Some(KeyError::Malformed)
    } else if !pairwise_distinct(encodings) {
        Some(KeyError::Duplicate)
    } else if !quorum_in_range(quorum, encodings.len()) {
        Some(KeyError::QuorumOutOfRange)
    } else {
        None
    }
}

/// The mathematical content of a [`CustodianKeySet`].
pub ghost struct CustodianKeySetView {
    pub keys: Seq<Seq<u8>>,
    pub quorum: nat,
}

impl CustodianKeySetView {
    /// Every key is a serialized public key, no key repeats, and the quorum
    /// can be met.
    pub open spec fn wf(self) -> bool {
        &&& forall|i: int| 0 <= i < self.keys.len() ==> is_public_key(#[trigger] self.keys[i])
        &&& pairwise_distinct(self.keys)
        &&& quorum_in_range(self.quorum, self.keys.len())
    }
}

/// The ordered custodian keys together with the number of signatures that
/// authorizes a spend.
#[derive(Debug)]
pub struct CustodianKeySet {
    keys: Vec<CustodianKey>,
    quorum: u8,
}

impl View for CustodianKeySet {
    type V = CustodianKeySetView;

    closed spec fn view(&self) -> CustodianKeySetView {
        CustodianKeySetView { keys: key_encodings(self.keys@), quorum: self.quorum as nat }
    }
}

/// Whether the key at `position` repeats an earlier one.
fn repeats_earlier(keys: &Vec<CustodianKey>, position: usize) -> (found: bool)
    requires
        position < keys.len(),
    ensures
        found == exists|j: int| 0 <= j < position && keys@[j]@ == keys@[position as int]@,
{
    let mut j: usize = 0;
    while j < position
        invariant
            j <= position < keys.len(),
            forall|k: int| 0 <= k < j ==> keys@[k]@ != keys@[position as int]@,
        decreases position - j,
    {
        if same_bytes(keys[j].as_bytes(), keys[position].as_bytes()) {
            return true;
        }
        j = j + 1;
    }
    false
}

/// Whether no key of `keys` occurs twice.
fn all_distinct(keys: &Vec<CustodianKey>) -> (distinct: bool)
    ensures
        distinct == pairwise_distinct(key_encodings(keys@)),
{
    let mut i: usize = 0;
    while i < keys.len()
        invariant
            i <= keys.len(),
            forall|a: int, b: int| 0 <= a < b < i ==> keys@[a]@ != keys@[b]@,
        decreases keys.len() - i,
    {
        if repeats_earlier(keys, i) {
            proof {
                let j = choose|j: int| 0 <= j < i && keys@[j]@ == keys@[i as int]@;
                let encodings = key_encodings(keys@);
                assert(encodings[j] == encodings[i as int]);
            }
            return false;
        }
        i = i + 1;
    }
    true
}

impl CustodianKeySet {
    /// The validity of the set, stated over its content. Every set is valid.
    #[verifier::type_invariant]
    pub open spec fn wf(&self) -> bool {
        self@.wf()
    }

    /// Forms a key set of valid keys, as [`CustodianKey::from_slice`] makes
    /// them. Duplicates are reported before a quorum that is out of range.
    pub fn new(keys: Vec<CustodianKey>, quorum: u8) -> (res: Result<CustodianKeySet, KeyError>)
        requires
            forall|i: int| 0 <= i < keys.len() ==> (#[trigger] keys[i]).wf(),
        ensures
            !pairwise_distinct(key_encodings(keys@)) ==> res == Err::<CustodianKeySet, KeyError>(
                KeyError::Duplicate,
            ),
            pairwise_distinct(key_encodings(keys@)) && !quorum_in_range(
                quorum as nat,
                keys.len() as nat,
            ) ==> res == Err::<CustodianKeySet, KeyError>(KeyError::QuorumOutOfRange),
            pairwise_distinct(key_encodings(keys@)) && quorum_in_range(
                quorum as nat,
                keys.len() as nat,
            ) ==> (res matches Ok(set) && set.wf() && set@ == (CustodianKeySetView {
                keys: key_encodings(keys@),
                quorum: quorum as nat,
            })),
    {
        if !all_distinct(&keys) {
            return Err(KeyError::Duplicate);
        }
        if quorum == 0 || quorum as usize > keys.len() {
            return Err(KeyError::QuorumOutOfRange);
        }
        proof {
            let encodings = key_encodings(keys@);
            assert forall|i: int| 0 <= i < encodings.len() implies is_public_key(
                #[trigger] encodings[i],
            ) by {
                assert(keys@[i].wf());
            }
        }
        Ok(CustodianKeySet { keys, quorum })
    }

    /// Validates serialized keys and forms a key set of them. A malformed
    /// key is reported first, then a duplicate, then a quorum out of range.
    pub fn from_encodings(encodings: &Vec<Vec<u8>>, quorum: u8) -> (res: Result<
        CustodianKeySet,
        KeyError,
    >)
        ensures
            key_set_defect(byte_strings(encodings@), quorum as nat) matches Some(e) ==> res
                == Err::<CustodianKeySet, KeyError>(e),
            key_set_defect(byte_strings(encodings@), quorum as nat) is None ==> (res matches Ok(
                set,
            ) && set.wf() && set@ == (CustodianKeySetView {
                keys: byte_strings(encodings@),
                quorum: quorum as nat,
            })),
    {
        let mut keys: Vec<CustodianKey> = Vec::new();
        let mut i: usize = 0;
        while i < encodings.len()
            invariant
                i <= encodings.len(),
                keys.len() == i,
                forall|k: int| 0 <= k < i ==> is_key_encoding((#[trigger] encodings[k])@),
                forall|k: int| 0 <= k < i ==> (#[trigger] keys[k])@ == encodings[k]@,
                forall|k: int| 0 <= k < i ==> (#[trigger] keys[k]).wf(),
            decreases encodings.len() - i,
        {
            match CustodianKey::from_slice(encodings[i].as_slice()) {
                Ok(key) => {
                    keys.push(key);
                },
                Err(_) => {
                    assert(!is_key_encoding(byte_strings(encodings@)[i as int]));
                    return Err(KeyError::Malformed);
                },
            }
            i = i + 1;
        }
        assert(key_encodings(keys@) =~= byte_strings(encodings@));
        assert forall|k: int| 0 <= k < encodings.len() implies is_key_encoding(
            #[trigger] byte_strings(encodings@)[k],
        ) by {
            assert(is_key_encoding(encodings[k]@));
        }
        CustodianKeySet::new(keys, quorum)
    }

    /// The keys, in signing order.
    pub fn keys(&self) -> (keys: &Vec<CustodianKey>)
        ensures
            key_encodings(keys@) == self@.keys,
    {
        &self.keys
    }

    /// The number of keys.
    pub fn len(&self) -> (count: usize)
        ensures
            count == self@.keys.len(),
    {
        self.keys.len()
    }

    /// The number of signatures that authorizes a spend.
    pub fn quorum(&self) -> (quorum: u8)
        ensures
            quorum as nat == self@.quorum,
    {
        self.quorum
    }
}

impl Clone for CustodianKeySet {
    fn clone(&self) -> (copy: Self)
        ensures
            copy@ == self@,
    {
        let mut keys: Vec<CustodianKey> = Vec::new();
        let mut i: usize = 0;
        while i < self.keys.len()
            invariant
                i <= self.keys.len(),
                keys.len() == i,
                forall|k: int| 0 <= k < i ==> keys@[k]@ == self.keys@[k]@,
            decreases self.keys.len() - i,
        {
            keys.push(self.keys[i].clone());
            i = i + 1;
        }
        proof {
            use_type_invariant(self);
            assert(key_encodings(keys@) =~= key_encodings(self.keys@));
        }
        CustodianKeySet { keys, quorum: self.quorum }
    }
}

} // verus!

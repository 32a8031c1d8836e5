//! Plain value types shared by the schema, the proof composer and the
//! query service, together with the byte-level helpers their contracts
//! are stated over.

use vstd::prelude::*;

verus! {

/// Copies a byte vector element by element.
pub fn clone_bytes(v: &Vec<u8>) -> (r: Vec<u8>)
    ensures
        r@ == v@,
{
    let mut r: Vec<u8> = Vec::new();
    let mut i: usize = 0;
    while i < v.len()
        invariant
            i <= v@.len(),
            r@ == v@.take(i as int),
        decreases v@.len() - i,
    {
        r.push(v[i]);
        proof {
            assert(r@ =~= v@.take(i + 1));
        }
        i += 1;
    }
    proof {
        assert(v@.take(v@.len() as int) =~= v@);
    }
    r
}

/// Copies a vector of digests element by element.
pub fn clone_digest_vec(v: &Vec<Digest>) -> (r: Vec<Digest>)
    ensures
        r@.len() == v@.len(),
        forall|i: int| 0 <= i < v@.len() ==> r@[i]@ == v@[i]@,
{
    let mut r: Vec<Digest> = Vec::new();
    let mut i: usize = 0;
    while i < v.len()
        invariant
            i <= v@.len(),
            r@.len() == i,
            forall|k: int| 0 <= k < i ==> r@[k]@ == v@[k]@,
        decreases v@.len() - i,
    {
        r.push(v[i].clone());
        i += 1;
    }
    r
}

/// Compares two byte vectors for equality of their contents.
pub fn bytes_eq(a: &Vec<u8>, b: &Vec<u8>) -> (r: bool)
    ensures
        r == (a@ == b@),
{
    if a.len() != b.len() {
        return false;
    }
    let mut i: usize = 0;
    while i < a.len()
        invariant
            a@.len() == b@.len(),
            i <= a@.len(),
            forall|j: int| 0 <= j < i ==> a@[j] == b@[j],
        decreases a@.len() - i,
    {
        if a[i] != b[i] {
            return false;
        }
        i += 1;
    }
    proof {
        assert(a@ =~= b@);
    }
    true
}

/// A digest produced by the external authenticated store or the
/// external hashing scheme; the core carries it through unmodified and
/// only ever compares it for equality.
#[derive(Debug, PartialEq, Eq)]
pub struct Digest {
    pub bytes: Vec<u8>,
}

impl View for Digest {
    type V = Seq<u8>;

    open spec fn view(&self) -> Seq<u8> {
        self.bytes@
    }
}

impl Clone for Digest {
    fn clone(&self) -> (r: Self)
        ensures
            r@ == self@,
    {
        Digest { bytes: clone_bytes(&self.bytes) }
    }
}

/// A public key registered for a version by the external key registry.
#[derive(Debug, PartialEq, Eq)]
pub struct PublicKey {
    pub bytes: Vec<u8>,
}

impl View for PublicKey {
    type V = Seq<u8>;

    open spec fn view(&self) -> Seq<u8> {
        self.bytes@
    }
}

impl Clone for PublicKey {
    fn clone(&self) -> (r: Self)
        ensures
            r@ == self@,
    {
        PublicKey { bytes: clone_bytes(&self.bytes) }
    }
}

/// The canonical identifier of a model: derived one way from the
/// version's registered public key, and the key type of the model map.
#[derive(Debug, PartialEq, Eq)]
pub struct Address {
    pub bytes: Vec<u8>,
}

impl View for Address {
    type V = Seq<u8>;

    open spec fn view(&self) -> Seq<u8> {
        self.bytes@
    }
}

impl Clone for Address {
    fn clone(&self) -> (r: Self)
        ensures
            r@ == self@,
    {
        Address { bytes: clone_bytes(&self.bytes) }
    }
}

/// The mathematical value of a [`Model`].
#[verifier::ext_equal]
pub struct ModelView {
    pub version: u32,
    pub payload: Seq<u8>,
}

/// A versioned entity of the registry: the monotonic version number and
/// the opaque reference to the trained artifact.
#[derive(Debug, PartialEq, Eq)]
pub struct Model {
    pub version: u32,
    pub payload: Vec<u8>,
}

impl View for Model {
    type V = ModelView;

    open spec fn view(&self) -> ModelView {
        ModelView { version: self.version, payload: self.payload@ }
    }
}

impl Clone for Model {
    fn clone(&self) -> (r: Self)
        ensures
            r@ == self@,
    {
        Model { version: self.version, payload: clone_bytes(&self.payload) }
    }
}

/// The value of an optional model, taken field by field.
pub open spec fn opt_model_view(o: Option<Model>) -> Option<ModelView> {
    match o {
        Some(m) => Some(m@),
        None => None,
    }
}

/// A full transaction payload resolved from the global transaction
/// index; opaque to the core.
#[derive(Debug, PartialEq, Eq)]
pub struct Transaction {
    pub payload: Vec<u8>,
}

impl View for Transaction {
    type V = Seq<u8>;

    open spec fn view(&self) -> Seq<u8> {
        self.payload@
    }
}

impl Clone for Transaction {
    fn clone(&self) -> (r: Self)
        ensures
            r@ == self@,
    {
        Transaction { payload: clone_bytes(&self.payload) }
    }
}

/// Client-visible failures of the query service.
///
/// Absence of a model under `model_info` is not an error: it is a valid
/// exclusion-proof result and never surfaces here.
#[derive(Clone, Copy, Debug, PartialEq, Eq, Structural)]
pub enum ApiError {
    /// The requested version has no registered key, or (for a raw model
    /// read) no model sits at the derived address.
    NotFound,
    /// The request parameters are invalid, such as a non-numeric
    /// version.
    Malformed,
    /// The committed containers themselves could not be read
    /// consistently; fatal and surfaced without detail.
    Internal,
}

} // verus!

use vstd::prelude::*;

verus! {

/// An account or contract address, held as the bytes of its textual
/// (strkey) encoding. Two addresses are the same party exactly when
/// their bytes are equal.
#[derive(Debug, PartialEq, Eq)]
pub struct Addr {
    pub bytes: Vec<u8>,
}

impl View for Addr {
    type V = Seq<u8>;

    open spec fn view(&self) -> Seq<u8> {
        self.bytes@
    }
}

/// Copies a byte vector.
pub fn copy_bytes(v: &Vec<u8>) -> (r: Vec<u8>)
    ensures
        r@ == v@,
{
    let mut r: Vec<u8> = Vec::new();
    let mut i: usize = 0;
    while i < v.len()
        invariant
            i <= v.len(),
            r@ == v@.subrange(0, i as int),
        decreases v.len() - i,
    {
        r.push(v[i]);
        i = i + 1;
    }
    assert(v@.subrange(0, v@.len() as int) =~= v@);
    r
}

/// Byte-wise equality of two byte vectors.
pub fn bytes_equal(a: &Vec<u8>, b: &Vec<u8>) -> (r: bool)
    ensures
        r == (a@ == b@),
{
    if a.len() != b.len() {
        return false;
    }
    let mut i: usize = 0;
    while i < a.len()
        invariant
            i <= a.len(),
            a.len() == b.len(),
            forall|j: int| 0 <= j < i ==> a@[j] == b@[j],
        decreases a.len() - i,
    {
        if a[i] != b[i] {
            return false;
        }
        i = i + 1;
    }
    assert(a@ =~= b@);
    true
}

impl Addr {
    /// Builds an address from the bytes of its strkey.
    pub fn new(bytes: Vec<u8>) -> (r: Addr)
        ensures
            r@ == bytes@,
    {
        Addr { bytes }
    }

    /// Whether `self` and `other` name the same party.
    pub fn same(&self, other: &Addr) -> (r: bool)
        ensures
            r == (self@ == other@),
    {
        bytes_equal(&self.bytes, &other.bytes)
    }

    /// A copy of this address.
    pub fn copy(&self) -> (r: Addr)
        ensures
            r@ == self@,
    {
        Addr { bytes: copy_bytes(&self.bytes) }
    }
}

/// The view of an optional address.
pub open spec fn opt_addr(o: Option<Addr>) -> Option<Seq<u8>> {
    match o {
        Some(a) => Some(a@),
        None => None,
    }
}

/// A copy of an optional address.
pub fn copy_opt_addr(o: &Option<Addr>) -> (r: Option<Addr>)
    ensures
        opt_addr(r) == opt_addr(*o),
{
    match o {
        Some(a) => Some(a.copy()),
        None => None,
    }
}

} // verus!

//! Account and contract identities as the accounting logic sees them.
use vstd::prelude::*;

verus! {

/// An on-ledger identity (an account or a contract), held as its canonical
/// byte encoding. Two identities are the same exactly when their encodings
/// are equal.
#[derive(Clone, Debug)]
pub struct Addr {
    bytes: Vec<u8>,
}

impl View for Addr {
    type V = Seq<u8>;

    closed spec fn view(&self) -> Seq<u8> {
        self.bytes@
    }
}

impl Addr {
    /// The identity whose canonical encoding is `bytes`.
    pub fn new(bytes: Vec<u8>) -> (a: Addr)
        ensures
            a@ == bytes@,
    {
        Addr { bytes }
    }

    /// The canonical encoding of this identity.
    pub fn as_bytes(&self) -> (b: &[u8])
        ensures
            b@ == self@,
    {
        self.bytes.as_slice()
    }

    /// Whether `self` and `other` name the same identity.
    pub fn same(&self, other: &Addr) -> (r: bool)
        ensures
            r == (self@ == other@),
    {
        let r = self.bytes == other.bytes;
        proof {
            if r {
                assert(self.bytes@ =~= other.bytes@);
            }
        }
        r
    }

    /// A second value naming the same identity.
    pub fn duplicate(&self) -> (r: Addr)
        ensures
            r@ == self@,
    {
        let bytes = self.bytes.clone();
        assert(bytes@ =~= self.bytes@);
        Addr { bytes }
    }
}

} // verus!

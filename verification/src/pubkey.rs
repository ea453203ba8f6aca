//! The 32-byte identity of an account or of a program.

use vstd::prelude::*;
use vstd::std_specs::cmp::PartialEqSpecImpl;

verus! {

/// How many bytes an identity has.
pub const PUBKEY_BYTES: usize = 32;

/// An identity: 32 raw bytes, compared byte by byte.
#[derive(Clone, Copy, Debug, Eq)]
pub struct Pubkey {
    bytes: [u8; 32],
}

impl View for Pubkey {
    type V = Seq<u8>;

    closed spec fn view(&self) -> Seq<u8> {
        self.bytes@
    }
}

impl Pubkey {
    /// Every identity has exactly 32 bytes.
    pub proof fn lemma_len(self)
        ensures
            self@.len() == PUBKEY_BYTES,
    {
    }

    /// The identity made of the bytes of `bytes`.
    pub fn new_from_array(bytes: [u8; 32]) -> (key: Pubkey)
        ensures
            key@ == bytes@,
    {
        Pubkey { bytes }
    }

    /// The bytes of this identity.
    pub fn to_bytes(&self) -> (bytes: [u8; 32])
        ensures
            bytes@ == self@,
    {
        self.bytes
    }

    /// The identity held in the first 32 bytes of `bytes`, where it has that many.
    pub fn from_prefix(bytes: &[u8]) -> (key: Option<Pubkey>)
        ensures
            bytes@.len() >= 32 ==> key is Some && key->0@ == bytes@.take(32),
            bytes@.len() < 32 ==> key is None,
    {
        if bytes.len() < 32 {
            return None;
        }
        let mut held: [u8; 32] = [0u8; 32];
        let mut i: usize = 0;
        while i < 32
            invariant
                0 <= i <= 32,
                bytes@.len() >= 32,
                forall|j: int| 0 <= j < i ==> held@[j] == bytes@[j],
            decreases 32 - i,
        {
            held[i] = bytes[i];
            i += 1;
        }
        Some(Pubkey { bytes: held })
    }
}

impl PartialEq for Pubkey {
    fn eq(&self, other: &Self) -> (r: bool) {
        let mut i: usize = 0;
        while i < 32
            invariant
                0 <= i <= 32,
                forall|j: int| 0 <= j < i ==> self.bytes@[j] == other.bytes@[j],
            decreases 32 - i,
        {
            if self.bytes[i] != other.bytes[i] {
                return false;
            }
            i += 1;
        }
        assert(self.bytes@ =~= other.bytes@);
        true
    }
}

impl PartialEqSpecImpl for Pubkey {
    open spec fn obeys_eq_spec() -> bool {
        true
    }

    open spec fn eq_spec(&self, other: &Self) -> bool {
        self@ == other@
    }
}

} // verus!

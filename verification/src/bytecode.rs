//! Contract code, shared rather than copied.
use std::sync::Arc;
use vstd::prelude::*;

verus! {

/// The code of a contract. Cloning hands out another handle to the same bytes.
#[derive(Debug, PartialEq, Eq)]
pub struct Bytecode {
    bytes: Arc<Vec<u8>>,
}

/// Another handle to the bytes behind `bytes`.
///
/// Calls `Arc::clone` of the standard library, which makes a second pointer to
/// the same allocation and leaves the bytes alone: the new handle stands for
/// the value that `bytes` stands for.
#[verifier::external_body]
fn share(bytes: &Arc<Vec<u8>>) -> (shared: Arc<Vec<u8>>)
    ensures
        shared == *bytes,
{
    Arc::clone(bytes)
}

impl Bytecode {
    /// The bytes of the code.
    pub closed spec fn view(&self) -> Seq<u8> {
        self.bytes@
    }

    pub fn new(bytes: Vec<u8>) -> (code: Self)
        ensures
            code@ == bytes@,
    {
        Bytecode { bytes: Arc::new(bytes) }
    }

    pub fn len(&self) -> (n: usize)
        ensures
            n == self@.len(),
    {
        self.bytes.len()
    }

    pub fn is_empty(&self) -> (r: bool)
        ensures
            r == (self@.len() == 0),
    {
        self.bytes.len() == 0
    }

    /// The byte at position `i`.
    pub fn byte_at(&self, i: usize) -> (b: u8)
        requires
            i < self@.len(),
        ensures
            b == self@[i as int],
    {
        self.bytes[i]
    }

    /// A copy of the bytes.
    pub fn to_vec(&self) -> (bytes: Vec<u8>)
        ensures
            bytes@ == self@,
    {
        let mut bytes: Vec<u8> = Vec::new();
        let mut i: usize = 0;
        while i < self.bytes.len()
            invariant
                i <= self.bytes@.len(),
                bytes@ == self.bytes@.take(i as int),
            decreases self.bytes@.len() - i,
        {
            bytes.push(self.bytes[i]);
            proof {
                assert(self.bytes@.take(i + 1) == self.bytes@.take(i as int).push(
                    self.bytes@[i as int],
                ));
            }
            i += 1;
        }
        proof {
            assert(self.bytes@.take(self.bytes@.len() as int) == self.bytes@);
        }
        bytes
    }
}

impl Clone for Bytecode {
    fn clone(&self) -> (code: Self)
        ensures
            code == *self,
    {
        Bytecode { bytes: share(&self.bytes) }
    }
}

} // verus!

use vstd::prelude::*;

verus! {

/// What an instruction sees of one account: its address, its owner, how it
/// was passed (signer, writable), and its data.
pub struct Account {
    pub address: [u8; 32],
    pub owner: [u8; 32],
    pub is_signer: bool,
    pub is_writable: bool,
    pub data: Vec<u8>,
}

/// Compares two 32-byte keys.
pub fn keys_eq(a: &[u8; 32], b: &[u8; 32]) -> (r: bool)
    ensures
        r == (a@ == b@),
{
    let mut i: usize = 0;
    while i < 32
        invariant
            0 <= i <= 32,
            forall|j: int| 0 <= j < i ==> a@[j] == b@[j],
        decreases 32 - i,
    {
        if a[i] != b[i] {
            return false;
        }
        i += 1;
    }
    assert(a@ =~= b@);
    true
}

/// Copies the 32 bytes of `data` that start at `off`.
pub fn read_key(data: &[u8], off: usize) -> (r: [u8; 32])
    requires
        off + 32 <= data@.len(),
    ensures
        r@ == data@.subrange(off as int, off + 32),
{
    let mut a = [0u8; 32];
    let len = data.len();
    let mut i: usize = 0;
    while i < 32
        invariant
            0 <= i <= 32,
            len == data@.len(),
            off + 32 <= data@.len(),
            forall|j: int| 0 <= j < i ==> a@[j] == data@[off + j],
        decreases 32 - i,
    {
        a[i] = data[off + i];
        i += 1;
    }
    assert(a@ =~= data@.subrange(off as int, off + 32));
    a
}

} // verus!

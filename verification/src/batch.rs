//! Batched token operations: several transfers, mints and burns packed into
//! one call of the token program, under its batch discriminator `0xFF`.
//!
//! Wire format per sub-instruction:
//! `[num_accts: u8] [data_len: u8] [disc: u8] [amount: u64 LE]`
use vstd::prelude::*;
use vstd::bytes::*;

use crate::account::Account;

verus! {

/// Token program instruction: transfer.
pub const TRANSFER: u8 = 3;
/// Token program instruction: mint to.
pub const MINT_TO: u8 = 7;
/// Token program instruction: burn.
pub const BURN: u8 = 8;
/// Token program instruction that runs a batch of the others.
pub const BATCH: u8 = 0xFF;

/// Every sub-instruction names 3 accounts.
pub const ACCTS_PER_OP: u8 = 3;
/// Every sub-instruction carries 9 data bytes: its discriminator and amount.
pub const DATA_PER_OP: u8 = 9;
/// Bytes of one entry: 2 header bytes and 9 data bytes.
pub const ENTRY: usize = 11;
/// Most entries one batch holds.
pub const MAX_OPS: usize = 4;

/// One token operation of a batch: on accounts `a` and `b`, signed by
/// `authority`.
#[derive(Clone, Copy, PartialEq, Eq, Debug)]
pub struct TokenOp {
    pub a: [u8; 32],
    pub b: [u8; 32],
    pub authority: [u8; 32],
    pub disc: u8,
    pub amount: u64,
}

impl TokenOp {
    /// Moves `amount` from `from` to `to`.
    pub fn transfer(from: &Account, to: &Account, authority: &Account, amount: u64) -> (r: Self)
        ensures
            r == (TokenOp {
                a: from.address,
                b: to.address,
                authority: authority.address,
                disc: TRANSFER,
                amount,
            }),
    {
        TokenOp { a: from.address, b: to.address, authority: authority.address, disc: TRANSFER, amount }
    }

    /// Mints `amount` of `mint` into `to`.
    pub fn mint_to(mint: &Account, to: &Account, mint_authority: &Account, amount: u64) -> (r: Self)
        ensures
            r == (TokenOp {
                a: mint.address,
                b: to.address,
                authority: mint_authority.address,
                disc: MINT_TO,
                amount,
            }),
    {
        TokenOp { a: mint.address, b: to.address, authority: mint_authority.address, disc: MINT_TO, amount }
    }

    /// Burns `amount` of `mint` from `from`.
    pub fn burn(from: &Account, mint: &Account, authority: &Account, amount: u64) -> (r: Self)
        ensures
            r == (TokenOp {
                a: from.address,
                b: mint.address,
                authority: authority.address,
                disc: BURN,
                amount,
            }),
    {
        TokenOp { a: from.address, b: mint.address, authority: authority.address, disc: BURN, amount }
    }
}

/// The 11 bytes of one entry.
pub open spec fn entry_bytes(disc: u8, amount: u64) -> Seq<u8> {
    seq![ACCTS_PER_OP, DATA_PER_OP, disc] + spec_u64_to_le_bytes(amount)
}

/// Writes one entry at `off`, leaving the other bytes of `buf` as they were.
pub fn write_entry(buf: &mut Vec<u8>, off: usize, disc: u8, amount: u64)
    requires
        off + ENTRY <= old(buf)@.len(),
    ensures
        final(buf)@.len() == old(buf)@.len(),
        final(buf)@.subrange(off as int, off + ENTRY) == entry_bytes(disc, amount),
        forall|i: int|
            0 <= i < old(buf)@.len() && !(off <= i < off + ENTRY) ==> final(buf)@[i] == old(buf)@[i],
{
    let len = buf.len();
    let le = u64_to_le_bytes(amount);
    buf.set(off, ACCTS_PER_OP);
    buf.set(off + 1, DATA_PER_OP);
    buf.set(off + 2, disc);
    let mut k: usize = 0;
    while k < 8
        invariant
            0 <= k <= 8,
            len == buf@.len(),
            off + ENTRY <= buf@.len(),
            buf@.len() == old(buf)@.len(),
            le@ == spec_u64_to_le_bytes(amount),
            le@.len() == 8,
            buf@[off as int] == ACCTS_PER_OP,
            buf@[off + 1] == DATA_PER_OP,
            buf@[off + 2] == disc,
            forall|j: int| 0 <= j < k ==> buf@[off + 3 + j] == le@[j],
            forall|i: int|
                0 <= i < old(buf)@.len() && !(off <= i < off + ENTRY) ==> buf@[i] == old(buf)@[i],
        decreases 8 - k,
    {
        buf.set(off + 3 + k, le[k]);
        k += 1;
    }
    assert(buf@.subrange(off as int, off + ENTRY) =~= entry_bytes(disc, amount));
}

/// The data of a batch of `ops`: the batch discriminator, then one entry per
/// operation, in order.
pub open spec fn is_batch_data(data: Seq<u8>, ops: Seq<TokenOp>) -> bool {
    &&& data.len() == 1 + ENTRY * ops.len()
    &&& data[0] == BATCH
    &&& forall|i: int|
        0 <= i < ops.len() ==> #[trigger] data.subrange(1 + ENTRY * i, 1 + ENTRY * i + ENTRY)
            == entry_bytes(ops[i].disc, ops[i].amount)
}

/// Builds the instruction data of a batch of up to four operations.
pub fn batch_data(ops: &[TokenOp]) -> (r: Vec<u8>)
    requires
        ops@.len() <= MAX_OPS,
    ensures
        is_batch_data(r@, ops@),
{
    let n = ops.len();
    let mut data: Vec<u8> = Vec::new();
    data.push(BATCH);
    let mut k: usize = 0;
    while k < ENTRY * n
        invariant
            n == ops@.len(),
            n <= MAX_OPS,
            k <= ENTRY * n,
            data@.len() == 1 + k,
            data@[0] == BATCH,
        decreases ENTRY * n - k,
    {
        data.push(0);
        k += 1;
    }
    let mut i: usize = 0;
    while i < n
        invariant
            n == ops@.len(),
            n <= MAX_OPS,
            i <= n,
            data@.len() == 1 + ENTRY * n,
            data@[0] == BATCH,
            forall|j: int|
                0 <= j < i ==> #[trigger] data@.subrange(1 + ENTRY * j, 1 + ENTRY * j + ENTRY)
                    == entry_bytes(ops@[j].disc, ops@[j].amount),
        decreases n - i,
    {
        let op = ops[i];
        let ghost before = data@;
        write_entry(&mut data, 1 + i * ENTRY, op.disc, op.amount);
        assert forall|j: int| 0 <= j < i + 1 implies #[trigger] data@.subrange(
            1 + ENTRY * j,
            1 + ENTRY * j + ENTRY,
        ) == entry_bytes(ops@[j].disc, ops@[j].amount) by {
            if j < i {
                assert(data@.subrange(1 + ENTRY * j, 1 + ENTRY * j + ENTRY) =~= before.subrange(
                    1 + ENTRY * j,
                    1 + ENTRY * j + ENTRY,
                ));
            }
        }
        i += 1;
    }
    data
}

/// How one account takes part in a batch.
#[derive(Clone, Copy, PartialEq, Eq, Debug)]
pub struct BatchAccount {
    pub address: [u8; 32],
    pub is_writable: bool,
    pub is_signer: bool,
}

/// The `k`-th account of a batch of `ops`: for each operation, `a` and `b`
/// writable, then `authority` read-only and signing.
pub open spec fn batch_account_at(ops: Seq<TokenOp>, k: int) -> BatchAccount {
    let op = ops[k / 3];
    if k % 3 == 0 {
        BatchAccount { address: op.a, is_writable: true, is_signer: false }
    } else if k % 3 == 1 {
        BatchAccount { address: op.b, is_writable: true, is_signer: false }
    } else {
        BatchAccount { address: op.authority, is_writable: false, is_signer: true }
    }
}

/// The accounts of a batch of `ops`, three per operation, in order.
pub open spec fn is_batch_accounts(accounts: Seq<BatchAccount>, ops: Seq<TokenOp>) -> bool {
    &&& accounts.len() == 3 * ops.len()
    &&& forall|k: int| 0 <= k < accounts.len() ==> #[trigger] accounts[k] == batch_account_at(ops, k)
}

/// Lists the accounts of a batch of operations.
pub fn batch_accounts(ops: &[TokenOp]) -> (r: Vec<BatchAccount>)
    requires
        ops@.len() <= MAX_OPS,
    ensures
        is_batch_accounts(r@, ops@),
{
    let mut out: Vec<BatchAccount> = Vec::new();
    let mut i: usize = 0;
    while i < ops.len()
        invariant
            i <= ops@.len() <= MAX_OPS,
            out@.len() == 3 * i,
            forall|k: int| 0 <= k < out@.len() ==> #[trigger] out@[k] == batch_account_at(ops@, k),
        decreases ops@.len() - i,
    {
        let op = ops[i];
        let ghost before = out@;
        out.push(BatchAccount { address: op.a, is_writable: true, is_signer: false });
        out.push(BatchAccount { address: op.b, is_writable: true, is_signer: false });
        out.push(BatchAccount { address: op.authority, is_writable: false, is_signer: true });
        assert forall|k: int| 0 <= k < out@.len() implies #[trigger] out@[k] == batch_account_at(
            ops@,
            k,
        ) by {
            if k < before.len() {
                assert(before[k] == out@[k]);
            } else {
                assert(k / 3 == i);
            }
        }
        i += 1;
    }
    out
}

} // verus!

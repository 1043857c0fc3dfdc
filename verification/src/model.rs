//! Plain-value model of a Solana block as this pipeline reads it: the block
//! header fields, its transactions, their top-level instructions and the
//! per-top-level groups of inner (cross-program) instructions, each inner one
//! carrying the invocation depth (stack height) reported by the source.

use vstd::prelude::*;

verus! {

/// One raw instruction: the owning program's address, the ordered account
/// list, and the opaque instruction data bytes.
#[derive(Debug, PartialEq, Eq)]
pub struct Instruction {
    pub program_id: String,
    pub accounts: Vec<String>,
    pub data: Vec<u8>,
}

/// Two instructions carry the same content: same program address, same
/// account addresses in the same order, same data bytes.
pub open spec fn instr_like(a: Instruction, b: Instruction) -> bool {
    &&& a.program_id@ == b.program_id@
    &&& a.accounts@.len() == b.accounts@.len()
    &&& forall|i: int| 0 <= i < a.accounts@.len() ==> a.accounts@[i]@ == b.accounts@[i]@
    &&& a.data@ == b.data@
}

impl Clone for Instruction {
    fn clone(&self) -> (r: Self)
        ensures
            instr_like(r, *self),
    {
        Instruction {
            program_id: self.program_id.clone(),
            accounts: self.accounts.clone(),
            data: self.data.clone(),
        }
    }
}

/// An inner instruction together with the invocation depth the source
/// reported for it (top-level instructions execute at depth 1, so a valid
/// inner instruction reports a depth of at least 2).
#[derive(Debug, PartialEq, Eq)]
pub struct InnerInstruction {
    pub instruction: Instruction,
    pub stack_height: u32,
}

/// The inner instructions produced while one top-level instruction ran,
/// grouped under that top-level instruction's position.
#[derive(Debug, PartialEq, Eq)]
pub struct InnerInstructionGroup {
    /// Position of the originating top-level instruction.
    pub index: u32,
    pub instructions: Vec<InnerInstruction>,
}

/// One transaction: outcome flag, signature, ordered signer addresses, the
/// top-level instructions, the inner-instruction groups, and the account
/// addresses paired with their pre-transaction balances.
#[derive(Debug, PartialEq, Eq)]
pub struct Transaction {
    /// True when the transaction failed on chain; such a transaction
    /// contributes no output rows.
    pub err: bool,
    pub signature: String,
    pub signers: Vec<String>,
    pub instructions: Vec<Instruction>,
    pub inner_instruction_groups: Vec<InnerInstructionGroup>,
    /// Every account address the transaction touches, in source order.
    pub accounts: Vec<String>,
    /// Balance of `accounts[i]` before the transaction ran.
    pub pre_balances: Vec<u64>,
}

/// One block: header fields and the ordered transactions.
#[derive(Debug, PartialEq, Eq)]
pub struct Block {
    pub slot: u64,
    pub parent_slot: u64,
    pub blockhash: String,
    pub previous_blockhash: String,
    pub block_height: u64,
    pub block_time: i64,
    pub transactions: Vec<Transaction>,
}

} // verus!

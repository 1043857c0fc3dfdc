//! Per-transaction context: the signature, the ordered signer list, and a
//! live table of account balances that is replayed instruction by
//! instruction. `update_balance` interprets balance-affecting instructions
//! addressed to the system or token program (native transfers, token
//! transfers, mints and burns) and credits or debits the touched accounts;
//! instructions of every other program leave the table unchanged.
//!
//! The recognized instruction layouts are the standard on-chain ones:
//! a system-program transfer is a 4-byte little-endian discriminant 2
//! followed by 8 little-endian lamport bytes, and a token-program
//! instruction is a 1-byte discriminant (3 transfer, 7 mint-to, 8 burn,
//! 12 checked transfer) followed by 8 little-endian amount bytes. Credits
//! saturate at the largest representable balance and debits at zero, and an
//! address that is not in the table is left untouched.

use vstd::prelude::*;

use crate::model::{Instruction, Transaction};

verus! {

/// Address of the system program, whose transfers move native balance.
pub open spec fn system_program_id_spec() -> Seq<char> {
    "11111111111111111111111111111111"@
}

/// Address of the token program, whose instructions move token balance.
pub open spec fn token_program_id_spec() -> Seq<char> {
    "TokenkegQfeZyiNwAJbNbGKPFXCWuBvf9Ss623VQ5DA"@
}

pub fn system_program_id() -> (r: String)
    ensures
        r@ == system_program_id_spec(),
{
    "11111111111111111111111111111111".to_owned()
}

pub fn token_program_id() -> (r: String)
    ensures
        r@ == token_program_id_spec(),
{
    "TokenkegQfeZyiNwAJbNbGKPFXCWuBvf9Ss623VQ5DA".to_owned()
}

/// Little-endian value of the 4 bytes of `d` starting at `o`.
pub open spec fn u32_le_spec(d: Seq<u8>, o: int) -> int {
    d[o] + 0x100 * d[o + 1] + 0x10000 * d[o + 2] + 0x1000000 * d[o + 3]
}

/// Little-endian value of the 8 bytes of `d` starting at `o`.
pub open spec fn u64_le_spec(d: Seq<u8>, o: int) -> int {
    d[o] + 0x100 * d[o + 1] + 0x10000 * d[o + 2] + 0x1000000 * d[o + 3]
        + 0x100000000 * d[o + 4] + 0x10000000000 * d[o + 5]
        + 0x1000000000000 * d[o + 6] + 0x100000000000000 * d[o + 7]
}

pub fn read_u32_le(d: &Vec<u8>, o: usize) -> (r: u32)
    requires
        o + 4 <= d@.len(),
    ensures
        r == u32_le_spec(d@, o as int),
{
    let n = d.len();
    assert(o + 4 <= n);
    (d[o] as u32) + 0x100 * (d[o + 1] as u32) + 0x10000 * (d[o + 2] as u32)
        + 0x1000000 * (d[o + 3] as u32)
}

pub fn read_u64_le(d: &Vec<u8>, o: usize) -> (r: u64)
    requires
        o + 8 <= d@.len(),
    ensures
        r == u64_le_spec(d@, o as int),
{
    let n = d.len();
    assert(o + 8 <= n);
    (d[o] as u64) + 0x100 * (d[o + 1] as u64) + 0x10000 * (d[o + 2] as u64)
        + 0x1000000 * (d[o + 3] as u64) + 0x100000000 * (d[o + 4] as u64)
        + 0x10000000000 * (d[o + 5] as u64) + 0x1000000000000 * (d[o + 6] as u64)
        + 0x100000000000000 * (d[o + 7] as u64)
}

/// What one instruction does to the balance table.
pub enum BalanceEffect {
    Noop,
    Transfer { from: Seq<char>, to: Seq<char>, amount: u64 },
    Mint { to: Seq<char>, amount: u64 },
    Burn { from: Seq<char>, amount: u64 },
}

/// The balance effect of an instruction, decided from its program address,
/// discriminant bytes and account list. Anything malformed or unrecognized
/// is a no-op.
pub open spec fn balance_effect(i: Instruction) -> BalanceEffect {
    if i.program_id@ == system_program_id_spec() {
        if i.data@.len() >= 12 && u32_le_spec(i.data@, 0) == 2 && i.accounts@.len() >= 2 {
            BalanceEffect::Transfer {
                from: i.accounts@[0]@,
                to: i.accounts@[1]@,
                amount: u64_le_spec(i.data@, 4) as u64,
            }
        } else {
            BalanceEffect::Noop
        }
    } else if i.program_id@ == token_program_id_spec() {
        if i.data@.len() >= 9 && i.data@[0] == 3 && i.accounts@.len() >= 2 {
            BalanceEffect::Transfer {
                from: i.accounts@[0]@,
                to: i.accounts@[1]@,
                amount: u64_le_spec(i.data@, 1) as u64,
            }
        } else if i.data@.len() >= 9 && i.data@[0] == 12 && i.accounts@.len() >= 3 {
            BalanceEffect::Transfer {
                from: i.accounts@[0]@,
                to: i.accounts@[2]@,
                amount: u64_le_spec(i.data@, 1) as u64,
            }
        } else if i.data@.len() >= 9 && i.data@[0] == 7 && i.accounts@.len() >= 2 {
            BalanceEffect::Mint { to: i.accounts@[1]@, amount: u64_le_spec(i.data@, 1) as u64 }
        } else if i.data@.len() >= 9 && i.data@[0] == 8 && i.accounts@.len() >= 1 {
            BalanceEffect::Burn { from: i.accounts@[0]@, amount: u64_le_spec(i.data@, 1) as u64 }
        } else {
            BalanceEffect::Noop
        }
    } else {
        BalanceEffect::Noop
    }
}

/// View of a balance table: address characters paired with the balance.
pub open spec fn entries_view(es: Seq<(String, u64)>) -> Seq<(Seq<char>, u64)> {
    es.map_values(|p: (String, u64)| (p.0@, p.1))
}

/// Views of a signer list.
pub open spec fn string_views(ss: Seq<String>) -> Seq<Seq<char>> {
    ss.map_values(|s: String| s@)
}

pub open spec fn sat_add_u64(a: u64, b: u64) -> u64 {
    if a + b > u64::MAX {
        u64::MAX
    } else {
        (a + b) as u64
    }
}

pub open spec fn sat_sub_u64(a: u64, b: u64) -> u64 {
    if a >= b {
        (a - b) as u64
    } else {
        0u64
    }
}

/// One entry after a credit to `to`: untouched unless the address matches.
pub open spec fn credit_pair(p: (String, u64), to: Seq<char>, amount: u64) -> (String, u64) {
    if p.0@ == to {
        (p.0, sat_add_u64(p.1, amount))
    } else {
        p
    }
}

/// One entry after a debit from `from`: untouched unless the address matches.
pub open spec fn debit_pair(p: (String, u64), from: Seq<char>, amount: u64) -> (String, u64) {
    if p.0@ == from {
        (p.0, sat_sub_u64(p.1, amount))
    } else {
        p
    }
}

/// Every entry whose address is `to` gains `amount`, saturating.
pub open spec fn credit_seq(es: Seq<(Seq<char>, u64)>, to: Seq<char>, amount: u64) -> Seq<
    (Seq<char>, u64),
> {
    es.map_values(
        |p: (Seq<char>, u64)| if p.0 == to {
            (p.0, sat_add_u64(p.1, amount))
        } else {
            p
        },
    )
}

/// Every entry whose address is `from` loses `amount`, saturating at zero.
pub open spec fn debit_seq(es: Seq<(Seq<char>, u64)>, from: Seq<char>, amount: u64) -> Seq<
    (Seq<char>, u64),
> {
    es.map_values(
        |p: (Seq<char>, u64)| if p.0 == from {
            (p.0, sat_sub_u64(p.1, amount))
        } else {
            p
        },
    )
}

/// The balance table after one instruction: the debit of a transfer is
/// applied before its credit.
pub open spec fn apply_effect(es: Seq<(Seq<char>, u64)>, e: BalanceEffect) -> Seq<
    (Seq<char>, u64),
> {
    match e {
        BalanceEffect::Noop => es,
        BalanceEffect::Transfer { from, to, amount } => credit_seq(
            debit_seq(es, from, amount),
            to,
            amount,
        ),
        BalanceEffect::Mint { to, amount } => credit_seq(es, to, amount),
        BalanceEffect::Burn { from, amount } => debit_seq(es, from, amount),
    }
}

/// The initial balance table of a transaction: each account address paired
/// with its pre-transaction balance, in account order.
pub open spec fn initial_balances(tx: Transaction) -> Seq<(Seq<char>, u64)> {
    Seq::new(
        vstd::math::min(tx.accounts@.len() as int, tx.pre_balances@.len() as int) as nat,
        |i: int| (tx.accounts@[i]@, tx.pre_balances@[i]),
    )
}

/// The per-transaction mutable record of signature, signers and live
/// account balances, replayed instruction by instruction.
pub struct TransactionContext {
    pub signature: String,
    pub signers: Vec<String>,
    pub balances: Vec<(String, u64)>,
}

impl TransactionContext {
    /// The instruction's balance effect is applied to the live table; the
    /// signature and the signer list never change.
    pub fn update_balance(&mut self, instruction: &Instruction)
        ensures
            final(self).signature == old(self).signature,
            final(self).signers == old(self).signers,
            entries_view(final(self).balances@) == apply_effect(
                entries_view(old(self).balances@),
                balance_effect(*instruction),
            ),
    {
        let sys = system_program_id();
        let tok = token_program_id();
        if instruction.program_id == sys {
            if instruction.data.len() >= 12 && read_u32_le(&instruction.data, 0) == 2
                && instruction.accounts.len() >= 2 {
                let amount = read_u64_le(&instruction.data, 4);
                let from = instruction.accounts[0].clone();
                let to = instruction.accounts[1].clone();
                debit_all(&mut self.balances, &from, amount);
                credit_all(&mut self.balances, &to, amount);
            }
        } else if instruction.program_id == tok {
            if instruction.data.len() >= 9 && instruction.data[0] == 3
                && instruction.accounts.len() >= 2 {
                let amount = read_u64_le(&instruction.data, 1);
                let from = instruction.accounts[0].clone();
                let to = instruction.accounts[1].clone();
                debit_all(&mut self.balances, &from, amount);
                credit_all(&mut self.balances, &to, amount);
            } else if instruction.data.len() >= 9 && instruction.data[0] == 12
                && instruction.accounts.len() >= 3 {
                let amount = read_u64_le(&instruction.data, 1);
                let from = instruction.accounts[0].clone();
                let to = instruction.accounts[2].clone();
                debit_all(&mut self.balances, &from, amount);
                credit_all(&mut self.balances, &to, amount);
            } else if instruction.data.len() >= 9 && instruction.data[0] == 7
                && instruction.accounts.len() >= 2 {
                let amount = read_u64_le(&instruction.data, 1);
                let to = instruction.accounts[1].clone();
                credit_all(&mut self.balances, &to, amount);
            } else if instruction.data.len() >= 9 && instruction.data[0] == 8
                && instruction.accounts.len() >= 1 {
                let amount = read_u64_le(&instruction.data, 1);
                let from = instruction.accounts[0].clone();
                debit_all(&mut self.balances, &from, amount);
            }
        }
    }

    /// Read-only projection of the signer list.
    pub fn get_signers(&self) -> (r: &Vec<String>)
        ensures
            r == &self.signers,
    {
        &self.signers
    }

    /// Read-only projection of the signature.
    pub fn get_signature(&self) -> (r: &String)
        ensures
            r == &self.signature,
    {
        &self.signature
    }

    /// The current balance of an address: the first matching entry.
    pub fn get_balance(&self, address: &String) -> (r: Option<u64>)
        ensures
            r == lookup_balance(entries_view(self.balances@), address@),
    {
        let ghost es = entries_view(self.balances@);
        proof {
            assert(es.skip(0) =~= es);
        }
        let mut j: usize = 0;
        while j < self.balances.len()
            invariant
                0 <= j <= self.balances@.len(),
                es == entries_view(self.balances@),
                lookup_balance(es, address@) == lookup_balance(es.skip(j as int), address@),
            decreases self.balances@.len() - j,
        {
            proof {
                assert(es[j as int] == (self.balances@[j as int].0@, self.balances@[j as int].1));
                assert(es.skip(j as int)[0] == es[j as int]);
                assert(es.skip(j as int).skip(1) =~= es.skip(j as int + 1));
            }
            if self.balances[j].0 == *address {
                return Some(self.balances[j].1);
            }
            j += 1;
        }
        None
    }
}

/// First balance recorded for `a`, if any.
pub open spec fn lookup_balance(es: Seq<(Seq<char>, u64)>, a: Seq<char>) -> Option<u64>
    decreases es.len(),
{
    if es.len() == 0 {
        None
    } else if es[0].0 == a {
        Some(es[0].1)
    } else {
        lookup_balance(es.skip(1), a)
    }
}

fn credit_all(balances: &mut Vec<(String, u64)>, to: &String, amount: u64)
    ensures
        entries_view(final(balances)@) == credit_seq(entries_view(old(balances)@), to@, amount),
{
    let ghost orig = balances@;
    let mut j: usize = 0;
    while j < balances.len()
        invariant
            0 <= j <= orig.len(),
            balances@.len() == orig.len(),
            forall|k: int| j <= k < orig.len() ==> balances@[k] == orig[k],
            forall|k: int|
                0 <= k < j ==> #[trigger] balances@[k] == credit_pair(orig[k], to@, amount),
        decreases orig.len() - j,
    {
        if balances[j].0 == *to {
            let cur = balances[j].1;
            let nb = if cur <= u64::MAX - amount {
                cur + amount
            } else {
                u64::MAX
            };
            balances[j].1 = nb;
        }
        assert(balances@[j as int] == credit_pair(orig[j as int], to@, amount));
        j += 1;
    }
    proof {
        assert forall|k: int| 0 <= k < orig.len() implies #[trigger] entries_view(balances@)[k]
            == credit_seq(entries_view(orig), to@, amount)[k] by {
            assert(entries_view(balances@)[k] == (balances@[k].0@, balances@[k].1));
            assert(entries_view(orig)[k] == (orig[k].0@, orig[k].1));
        }
        assert(entries_view(balances@) =~= credit_seq(entries_view(orig), to@, amount));
    }
}

fn debit_all(balances: &mut Vec<(String, u64)>, from: &String, amount: u64)
    ensures
        entries_view(final(balances)@) == debit_seq(entries_view(old(balances)@), from@, amount),
{
    let ghost orig = balances@;
    let mut j: usize = 0;
    while j < balances.len()
        invariant
            0 <= j <= orig.len(),
            balances@.len() == orig.len(),
            forall|k: int| j <= k < orig.len() ==> balances@[k] == orig[k],
            forall|k: int|
                0 <= k < j ==> #[trigger] balances@[k] == debit_pair(orig[k], from@, amount),
        decreases orig.len() - j,
    {
        if balances[j].0 == *from {
            let cur = balances[j].1;
            let nb = if cur >= amount {
                cur - amount
            } else {
                0
            };
            balances[j].1 = nb;
        }
        assert(balances@[j as int] == debit_pair(orig[j as int], from@, amount));
        j += 1;
    }
    proof {
        assert forall|k: int| 0 <= k < orig.len() implies #[trigger] entries_view(balances@)[k]
            == debit_seq(entries_view(orig), from@, amount)[k] by {
            assert(entries_view(balances@)[k] == (balances@[k].0@, balances@[k].1));
            assert(entries_view(orig)[k] == (orig[k].0@, orig[k].1));
        }
        assert(entries_view(balances@) =~= debit_seq(entries_view(orig), from@, amount));
    }
}

/// Builds the initial context of a transaction: its signature, its signer
/// list, and each account paired with its pre-transaction balance.
pub fn get_context(transaction: &Transaction) -> (c: TransactionContext)
    ensures
        c.signature@ == transaction.signature@,
        string_views(c.signers@) == string_views(transaction.signers@),
        entries_view(c.balances@) == initial_balances(*transaction),
{
    let mut balances: Vec<(String, u64)> = Vec::new();
    let n = if transaction.accounts.len() <= transaction.pre_balances.len() {
        transaction.accounts.len()
    } else {
        transaction.pre_balances.len()
    };
    let mut i: usize = 0;
    while i < n
        invariant
            0 <= i <= n,
            n == vstd::math::min(
                transaction.accounts@.len() as int,
                transaction.pre_balances@.len() as int,
            ),
            balances@.len() == i,
            forall|k: int|
                0 <= k < i ==> #[trigger] entries_view(balances@)[k] == initial_balances(
                    *transaction,
                )[k],
        decreases n - i,
    {
        let ghost before = balances@;
        balances.push((transaction.accounts[i].clone(), transaction.pre_balances[i]));
        proof {
            assert forall|k: int| 0 <= k < i + 1 implies #[trigger] entries_view(balances@)[k]
                == initial_balances(*transaction)[k] by {
                assert(entries_view(balances@)[k] == (balances@[k].0@, balances@[k].1));
                if k < i {
                    assert(balances@[k] == before[k]);
                    assert(entries_view(before)[k] == (before[k].0@, before[k].1));
                }
            }
        }
        i += 1;
    }
    assert(entries_view(balances@) =~= initial_balances(*transaction));
    let signers = transaction.signers.clone();
    assert(string_views(signers@) =~= string_views(transaction.signers@));
    TransactionContext { signature: transaction.signature.clone(), signers, balances }
}

/// Read-only projection of a transaction's signer list.
pub fn get_signers(transaction: &Transaction) -> (r: &Vec<String>)
    ensures
        r == &transaction.signers,
{
    &transaction.signers
}

/// Read-only projection of a transaction's signature.
pub fn get_signature(transaction: &Transaction) -> (r: &String)
    ensures
        r == &transaction.signature,
{
    &transaction.signature
}

} // verus!

//! Output rows. A row belongs to one named table, carries the key fields
//! its table prescribes (slot; slot and transaction index; or slot,
//! transaction index and instruction index) and an ordered column list.
//! Every event row ends, after its event-specific columns, with the four
//! ancestry columns (sentinel values for a top-level instruction) and the
//! two partial join columns.

use vstd::prelude::*;

use crate::events::{
    ClaimVestedEvent, CreateVestingEvent, FrensEvent, PoolCreateEvent, TradeEvent,
};
use crate::indexer::IndexedInstruction;
use crate::indexer::IndexedInstructions;
use crate::model::Block;

verus! {

/// A column value.
#[derive(Debug, PartialEq, Eq)]
pub enum Value {
    Text(String),
    U64(u64),
    I64(i64),
    U32(u32),
}

/// Mathematical view of a column value: text becomes its characters.
pub enum ValueV {
    Text(Seq<char>),
    U64(u64),
    I64(i64),
    U32(u32),
}

pub open spec fn value_view(v: Value) -> ValueV {
    match v {
        Value::Text(s) => ValueV::Text(s@),
        Value::U64(x) => ValueV::U64(x),
        Value::I64(x) => ValueV::I64(x),
        Value::U32(x) => ValueV::U32(x),
    }
}

/// The output tables.
#[derive(Debug, PartialEq, Eq, Clone, Copy)]
pub enum TableKind {
    Blocks,
    Transactions,
    PoolCreateEvents,
    TradeEvents,
    CreateVestingEvents,
    ClaimVestedEvents,
}

/// A column name.
#[derive(Debug, PartialEq, Eq, Clone, Copy)]
pub enum Col {
    TrxHash,
    PlatformId,
    PoolState,
    Creator,
    Config,
    CurveName,
    Symbol,
    Uri,
    Decimals,
    CurveParam,
    TotalLockedAmount,
    CliffPeriod,
    UnlockPeriod,
    TotalBaseSell,
    VirtualBase,
    VirtualQuote,
    RealBaseBefore,
    RealQuoteBefore,
    RealBaseAfter,
    RealQuoteAfter,
    AmountIn,
    AmountOut,
    ProtocolFee,
    PlatformFee,
    ShareFee,
    TradeDirection,
    PoolStatus,
    Beneficiary,
    ShareAmount,
    ClaimAmount,
    ParentInstructionProgramId,
    ParentInstructionIndex,
    TopInstructionProgramId,
    TopInstructionIndex,
    PartialSignature,
    PartialBlockhash,
    Signature,
    NumberOfSigners,
    Signer(u8),
    ParentSlot,
    BlockHeight,
    Blockhash,
    PreviousBlockhash,
    BlockTime,
}

/// One output row.
#[derive(Debug, PartialEq, Eq)]
pub struct TableRow {
    pub table: TableKind,
    pub slot: u64,
    pub transaction_index: Option<u32>,
    pub instruction_index: Option<u64>,
    pub columns: Vec<(Col, Value)>,
}

/// The accumulated output of one block, in emission order.
#[derive(Debug, PartialEq, Eq)]
pub struct Tables {
    pub rows: Vec<TableRow>,
}

/// Mathematical view of a row.
pub struct RowV {
    pub table: TableKind,
    pub slot: u64,
    pub transaction_index: Option<u32>,
    pub instruction_index: Option<u64>,
    pub columns: Seq<(Col, ValueV)>,
}

pub open spec fn row_view(r: TableRow) -> RowV {
    RowV {
        table: r.table,
        slot: r.slot,
        transaction_index: r.transaction_index,
        instruction_index: r.instruction_index,
        columns: r.columns@.map_values(|cv: (Col, Value)| (cv.0, value_view(cv.1))),
    }
}

pub open spec fn tables_view(t: Tables) -> Seq<RowV> {
    t.rows@.map_values(|r: TableRow| row_view(r))
}

/// The table a decoded event reports into.
pub open spec fn event_table(e: FrensEvent) -> TableKind {
    match e {
        FrensEvent::PoolCreate(_) => TableKind::PoolCreateEvents,
        FrensEvent::Trade(_) => TableKind::TradeEvents,
        FrensEvent::CreateVesting(_) => TableKind::CreateVestingEvents,
        FrensEvent::ClaimVested(_) => TableKind::ClaimVestedEvents,
    }
}

pub open spec fn pool_create_columns(e: PoolCreateEvent) -> Seq<(Col, ValueV)> {
    seq![
        (Col::TrxHash, ValueV::Text(e.trx_hash@)),
        (Col::PlatformId, ValueV::Text(e.platform_id@)),
        (Col::PoolState, ValueV::Text(e.pool_state@)),
        (Col::Creator, ValueV::Text(e.creator@)),
        (Col::Config, ValueV::Text(e.config@)),
        (Col::CurveName, ValueV::Text(e.base_mint_param.name@)),
        (Col::Symbol, ValueV::Text(e.base_mint_param.symbol@)),
        (Col::Uri, ValueV::Text(e.base_mint_param.uri@)),
        (Col::Decimals, ValueV::U32(e.base_mint_param.decimals)),
        (Col::CurveParam, ValueV::U64(e.curve_param)),
        (Col::TotalLockedAmount, ValueV::U64(e.vesting_param.total_locked_amount)),
        (Col::CliffPeriod, ValueV::U64(e.vesting_param.cliff_period)),
        (Col::UnlockPeriod, ValueV::U64(e.vesting_param.unlock_period)),
    ]
}

pub open spec fn trade_columns(e: TradeEvent) -> Seq<(Col, ValueV)> {
    seq![
        (Col::TrxHash, ValueV::Text(e.trx_hash@)),
        (Col::PlatformId, ValueV::Text(e.platform_id@)),
        (Col::TotalBaseSell, ValueV::U64(e.total_base_sell)),
        (Col::VirtualBase, ValueV::U64(e.virtual_base)),
        (Col::VirtualQuote, ValueV::U64(e.virtual_quote)),
        (Col::RealBaseBefore, ValueV::U64(e.real_base_before)),
        (Col::RealQuoteBefore, ValueV::U64(e.real_quote_before)),
        (Col::RealBaseAfter, ValueV::U64(e.real_base_after)),
        (Col::RealQuoteAfter, ValueV::U64(e.real_quote_after)),
        (Col::AmountIn, ValueV::U64(e.amount_in)),
        (Col::AmountOut, ValueV::U64(e.amount_out)),
        (Col::ProtocolFee, ValueV::U64(e.protocol_fee)),
        (Col::PlatformFee, ValueV::U64(e.platform_fee)),
        (Col::ShareFee, ValueV::U64(e.share_fee)),
        (Col::TradeDirection, ValueV::I64(e.trade_direction as i64)),
        (Col::PoolStatus, ValueV::I64(e.pool_status as i64)),
    ]
}

pub open spec fn create_vesting_columns(e: CreateVestingEvent) -> Seq<(Col, ValueV)> {
    seq![
        (Col::TrxHash, ValueV::Text(e.trx_hash@)),
        (Col::PoolState, ValueV::Text(e.pool_state@)),
        (Col::Beneficiary, ValueV::Text(e.beneficiary@)),
        (Col::ShareAmount, ValueV::U64(e.share_amount)),
    ]
}

pub open spec fn claim_vested_columns(e: ClaimVestedEvent) -> Seq<(Col, ValueV)> {
    seq![
        (Col::TrxHash, ValueV::Text(e.trx_hash@)),
        (Col::PoolState, ValueV::Text(e.pool_state@)),
        (Col::Beneficiary, ValueV::Text(e.beneficiary@)),
        (Col::ClaimAmount, ValueV::U64(e.claim_amount)),
    ]
}

/// The event-specific columns of a row, in emission order.
pub open spec fn event_columns(e: FrensEvent) -> Seq<(Col, ValueV)> {
    match e {
        FrensEvent::PoolCreate(c) => pool_create_columns(c),
        FrensEvent::Trade(tr) => trade_columns(tr),
        FrensEvent::CreateVesting(c) => create_vesting_columns(c),
        FrensEvent::ClaimVested(c) => claim_vested_columns(c),
    }
}

/// The four ancestry columns of the node at `i`: the real parent and
/// top-level ancestor where a parent exists, otherwise the sentinel pair
/// of an empty program id and index -1.
pub open spec fn ancestry_columns(nodes: Seq<IndexedInstruction>, i: int) -> Seq<(Col, ValueV)> {
    match nodes[i].parent_index {
        Option::None => seq![
            (Col::ParentInstructionProgramId, ValueV::Text(Seq::<char>::empty())),
            (Col::ParentInstructionIndex, ValueV::I64(-1i64)),
            (Col::TopInstructionProgramId, ValueV::Text(Seq::<char>::empty())),
            (Col::TopInstructionIndex, ValueV::I64(-1i64)),
        ],
        Option::Some(p) => seq![
            (
                Col::ParentInstructionProgramId,
                ValueV::Text(nodes[p as int].instruction.program_id@),
            ),
            (Col::ParentInstructionIndex, ValueV::I64(p as i64)),
            (
                Col::TopInstructionProgramId,
                ValueV::Text(nodes[nodes[i].top_index as int].instruction.program_id@),
            ),
            (Col::TopInstructionIndex, ValueV::I64(nodes[i].top_index as i64)),
        ],
    }
}

/// The full row of one decoded event before the partial join columns:
/// keyed by (slot, transaction index, instruction index), the event's own
/// columns first, the ancestry columns last.
pub open spec fn event_rowv(
    e: FrensEvent,
    nodes: Seq<IndexedInstruction>,
    i: int,
    slot: u64,
    transaction_index: u32,
) -> RowV {
    RowV {
        table: event_table(e),
        slot: slot,
        transaction_index: Some(transaction_index),
        instruction_index: Some(i as u64),
        columns: event_columns(e) + ancestry_columns(nodes, i),
    }
}

/// Builds the row of one decoded event: the key and the event-specific
/// columns, exactly in the order the table prescribes.
pub fn parse_frens_instruction(
    event: FrensEvent,
    slot: u64,
    transaction_index: u32,
    instruction_index: u64,
) -> (r: TableRow)
    ensures
        r.table == event_table(event),
        r.slot == slot,
        r.transaction_index == Some(transaction_index),
        r.instruction_index == Some(instruction_index),
        row_view(r).columns == event_columns(event),
{
    let table = match &event {
        FrensEvent::PoolCreate(_) => TableKind::PoolCreateEvents,
        FrensEvent::Trade(_) => TableKind::TradeEvents,
        FrensEvent::CreateVesting(_) => TableKind::CreateVestingEvents,
        FrensEvent::ClaimVested(_) => TableKind::ClaimVestedEvents,
    };
    let mut columns: Vec<(Col, Value)> = Vec::new();
    match event {
        FrensEvent::PoolCreate(c) => {
            columns.push((Col::TrxHash, Value::Text(c.trx_hash)));
            columns.push((Col::PlatformId, Value::Text(c.platform_id)));
            columns.push((Col::PoolState, Value::Text(c.pool_state)));
            columns.push((Col::Creator, Value::Text(c.creator)));
            columns.push((Col::Config, Value::Text(c.config)));
            columns.push((Col::CurveName, Value::Text(c.base_mint_param.name)));
            columns.push((Col::Symbol, Value::Text(c.base_mint_param.symbol)));
            columns.push((Col::Uri, Value::Text(c.base_mint_param.uri)));
            columns.push((Col::Decimals, Value::U32(c.base_mint_param.decimals)));
            columns.push((Col::CurveParam, Value::U64(c.curve_param)));
            columns.push((Col::TotalLockedAmount, Value::U64(c.vesting_param.total_locked_amount)));
            columns.push((Col::CliffPeriod, Value::U64(c.vesting_param.cliff_period)));
            columns.push((Col::UnlockPeriod, Value::U64(c.vesting_param.unlock_period)));
        },
        FrensEvent::Trade(tr) => {
            columns.push((Col::TrxHash, Value::Text(tr.trx_hash)));
            columns.push((Col::PlatformId, Value::Text(tr.platform_id)));
            columns.push((Col::TotalBaseSell, Value::U64(tr.total_base_sell)));
            columns.push((Col::VirtualBase, Value::U64(tr.virtual_base)));
            columns.push((Col::VirtualQuote, Value::U64(tr.virtual_quote)));
            columns.push((Col::RealBaseBefore, Value::U64(tr.real_base_before)));
            columns.push((Col::RealQuoteBefore, Value::U64(tr.real_quote_before)));
            columns.push((Col::RealBaseAfter, Value::U64(tr.real_base_after)));
            columns.push((Col::RealQuoteAfter, Value::U64(tr.real_quote_after)));
            columns.push((Col::AmountIn, Value::U64(tr.amount_in)));
            columns.push((Col::AmountOut, Value::U64(tr.amount_out)));
            columns.push((Col::ProtocolFee, Value::U64(tr.protocol_fee)));
            columns.push((Col::PlatformFee, Value::U64(tr.platform_fee)));
            columns.push((Col::ShareFee, Value::U64(tr.share_fee)));
            columns.push((Col::TradeDirection, Value::I64(tr.trade_direction as i64)));
            columns.push((Col::PoolStatus, Value::I64(tr.pool_status as i64)));
        },
        FrensEvent::CreateVesting(c) => {
            columns.push((Col::TrxHash, Value::Text(c.trx_hash)));
            columns.push((Col::PoolState, Value::Text(c.pool_state)));
            columns.push((Col::Beneficiary, Value::Text(c.beneficiary)));
            columns.push((Col::ShareAmount, Value::U64(c.share_amount)));
        },
        FrensEvent::ClaimVested(c) => {
            columns.push((Col::TrxHash, Value::Text(c.trx_hash)));
            columns.push((Col::PoolState, Value::Text(c.pool_state)));
            columns.push((Col::Beneficiary, Value::Text(c.beneficiary)));
            columns.push((Col::ClaimAmount, Value::U64(c.claim_amount)));
        },
    }
    let r = TableRow {
        table,
        slot,
        transaction_index: Some(transaction_index),
        instruction_index: Some(instruction_index),
        columns,
    };
    proof {
        assert(row_view(r).columns =~= event_columns(event));
    }
    r
}

/// Builds the finished pre-partial row of the node at `i`: the event's
/// columns followed by the four ancestry columns read off the arena.
pub fn parse_instruction(
    instructions: &IndexedInstructions,
    i: usize,
    event: FrensEvent,
    slot: u64,
    transaction_index: u32,
) -> (r: TableRow)
    requires
        i < instructions.nodes@.len(),
        match instructions.nodes@[i as int].parent_index {
            Option::Some(p) => p < instructions.nodes@.len(),
            Option::None => true,
        },
        instructions.nodes@[i as int].top_index < instructions.nodes@.len(),
    ensures
        row_view(r) == event_rowv(event, instructions.nodes@, i as int, slot, transaction_index),
{
    let ghost ev = event;
    let mut row = parse_frens_instruction(event, slot, transaction_index, i as u64);
    match instructions.nodes[i].parent_index {
        Option::Some(p) => {
            let top = instructions.nodes[i].top_index;
            row.columns.push(
                (
                    Col::ParentInstructionProgramId,
                    Value::Text(instructions.nodes[p].instruction.program_id.clone()),
                ),
            );
            row.columns.push((Col::ParentInstructionIndex, Value::I64(p as i64)));
            row.columns.push(
                (
                    Col::TopInstructionProgramId,
                    Value::Text(instructions.nodes[top].instruction.program_id.clone()),
                ),
            );
            row.columns.push((Col::TopInstructionIndex, Value::I64(top as i64)));
        },
        Option::None => {
            row.columns.push((Col::ParentInstructionProgramId, Value::Text(String::new())));
            row.columns.push((Col::ParentInstructionIndex, Value::I64(-1)));
            row.columns.push((Col::TopInstructionProgramId, Value::Text(String::new())));
            row.columns.push((Col::TopInstructionIndex, Value::I64(-1)));
        },
    }
    proof {
        assert(row_view(row).columns =~= event_columns(ev) + ancestry_columns(
            instructions.nodes@,
            i as int,
        ));
    }
    row
}

/// Value of signer slot `i`: the address while signers remain, the empty
/// string for the unused slots.
pub open spec fn signer_value(signers: Seq<Seq<char>>, i: int) -> ValueV {
    if i < signers.len() {
        ValueV::Text(signers[i])
    } else {
        ValueV::Text(Seq::<char>::empty())
    }
}

/// The per-transaction summary row: signature, signer count, and the eight
/// signer slots.
pub open spec fn transactions_rowv(
    signature: Seq<char>,
    signers: Seq<Seq<char>>,
    slot: u64,
    transaction_index: u32,
) -> RowV {
    RowV {
        table: TableKind::Transactions,
        slot: slot,
        transaction_index: Some(transaction_index),
        instruction_index: None,
        columns: seq![
            (Col::Signature, ValueV::Text(signature)),
            (Col::NumberOfSigners, ValueV::U64(signers.len() as u64)),
        ] + Seq::new(8, |i: int| (Col::Signer(i as u8), signer_value(signers, i))),
    }
}

/// Builds the summary row of one successful transaction that produced
/// output.
pub fn transactions_row(
    signature: &String,
    signers: &Vec<String>,
    slot: u64,
    transaction_index: u32,
) -> (r: TableRow)
    ensures
        row_view(r) == transactions_rowv(
            signature@,
            crate::context::string_views(signers@),
            slot,
            transaction_index,
        ),
{
    let ghost sv = crate::context::string_views(signers@);
    let mut columns: Vec<(Col, Value)> = Vec::new();
    columns.push((Col::Signature, Value::Text(signature.clone())));
    columns.push((Col::NumberOfSigners, Value::U64(signers.len() as u64)));
    let mut i: usize = 0;
    while i < 8
        invariant
            0 <= i <= 8,
            sv == crate::context::string_views(signers@),
            sv.len() == signers@.len(),
            columns@.len() == 2 + i,
            value_view(columns@[0].1) == ValueV::Text(signature@),
            columns@[0].0 == Col::Signature,
            columns@[1] == (Col::NumberOfSigners, Value::U64(signers@.len() as u64)),
            forall|j: int|
                2 <= j < 2 + i ==> (#[trigger] columns@[j]).0 == Col::Signer((j - 2) as u8)
                    && value_view(columns@[j].1) == signer_value(sv, j - 2),
        decreases 8 - i,
    {
        if i < signers.len() {
            columns.push((Col::Signer(i as u8), Value::Text(signers[i].clone())));
        } else {
            columns.push((Col::Signer(i as u8), Value::Text(String::new())));
        }
        assert(columns@[2 + i as int].0 == Col::Signer(i as u8));
        assert(value_view(columns@[2 + i as int].1) == signer_value(sv, i as int));
        i += 1;
    }
    let r = TableRow {
        table: TableKind::Transactions,
        slot,
        transaction_index: Some(transaction_index),
        instruction_index: None,
        columns,
    };
    proof {
        let expected = transactions_rowv(signature@, sv, slot, transaction_index).columns;
        let actual = row_view(r).columns;
        assert forall|k: int| 0 <= k < 10 implies actual[k] == expected[k] by {
            assert(actual[k] == (columns@[k].0, value_view(columns@[k].1)));
            if k >= 2 {
                assert(expected[k] == (Col::Signer((k - 2) as u8), signer_value(sv, k - 2)));
            }
        }
        assert(actual =~= expected);
    }
    r
}

/// The one summary row of the whole block.
pub open spec fn block_rowv(b: Block) -> RowV {
    RowV {
        table: TableKind::Blocks,
        slot: b.slot,
        transaction_index: None,
        instruction_index: None,
        columns: seq![
            (Col::ParentSlot, ValueV::U64(b.parent_slot)),
            (Col::BlockHeight, ValueV::U64(b.block_height)),
            (Col::Blockhash, ValueV::Text(b.blockhash@)),
            (Col::PreviousBlockhash, ValueV::Text(b.previous_blockhash@)),
            (Col::BlockTime, ValueV::I64(b.block_time)),
        ],
    }
}

/// Builds the block summary row.
pub fn block_row(b: &Block) -> (r: TableRow)
    ensures
        row_view(r) == block_rowv(*b),
{
    let mut columns: Vec<(Col, Value)> = Vec::new();
    columns.push((Col::ParentSlot, Value::U64(b.parent_slot)));
    columns.push((Col::BlockHeight, Value::U64(b.block_height)));
    columns.push((Col::Blockhash, Value::Text(b.blockhash.clone())));
    columns.push((Col::PreviousBlockhash, Value::Text(b.previous_blockhash.clone())));
    columns.push((Col::BlockTime, Value::I64(b.block_time)));
    let r = TableRow {
        table: TableKind::Blocks,
        slot: b.slot,
        transaction_index: None,
        instruction_index: None,
        columns,
    };
    proof {
        assert(row_view(r).columns =~= block_rowv(*b).columns);
    }
    r
}

} // verus!

use frens_indexer::context::TransactionContext;
use frens_indexer::events::{
    ClaimVestedEvent, CreateVestingEvent, FrensEvent, MintParams, PoolCreateEvent, TradeEvent,
    VestingParams,
};
use frens_indexer::model::{
    Block, InnerInstruction, InnerInstructionGroup, Instruction, Transaction,
};
use frens_indexer::pipeline::{block_database_changes, parse_transaction, FrensDecoder};
use frens_indexer::rows::{
    parse_frens_instruction, transactions_row, Col, TableKind, TableRow, Tables, Value,
};

const FRENS: &str = "FrensPool111111111111111111111111";

fn instr(program_id: &str, accounts: &[&str], data: &[u8]) -> Instruction {
    Instruction {
        program_id: program_id.to_string(),
        accounts: accounts.iter().map(|a| a.to_string()).collect(),
        data: data.to_vec(),
    }
}

fn trade_event() -> TradeEvent {
    TradeEvent {
        trx_hash: "hashT".to_string(),
        platform_id: "platform1".to_string(),
        total_base_sell: 10,
        virtual_base: 20,
        virtual_quote: 30,
        real_base_before: 40,
        real_quote_before: 50,
        real_base_after: 60,
        real_quote_after: 70,
        amount_in: 80,
        amount_out: 90,
        protocol_fee: 1,
        platform_fee: 2,
        share_fee: 3,
        trade_direction: 0,
        pool_status: 1,
    }
}

fn claim_event() -> ClaimVestedEvent {
    ClaimVestedEvent {
        trx_hash: "hashC".to_string(),
        pool_state: "poolC".to_string(),
        beneficiary: "benef".to_string(),
        claim_amount: 123,
    }
}

/// A registry entry for tests: byte 1 decodes to a trade, byte 2 to a
/// vested claim, byte 3 to nothing, byte 4 to a decode error.
struct TestDecoder;

impl TestDecoder {
    fn new() -> Self {
        TestDecoder
    }
}

impl FrensDecoder for TestDecoder {
    fn decode(
        &self,
        _transaction: &Transaction,
        instruction: &Instruction,
        _context: &TransactionContext,
    ) -> Result<Option<FrensEvent>, String> {
        match instruction.data.first() {
            Some(&1) => Ok(Some(FrensEvent::Trade(trade_event()))),
            Some(&2) => Ok(Some(FrensEvent::ClaimVested(claim_event()))),
            Some(&4) => Err("malformed instruction data".to_string()),
            _ => Ok(None),
        }
    }
}

fn tx(instructions: Vec<Instruction>, groups: Vec<InnerInstructionGroup>) -> Transaction {
    Transaction {
        err: false,
        signature: "SIGNATUREAAAA".to_string(),
        signers: vec!["signer1".to_string(), "signer2".to_string()],
        instructions,
        inner_instruction_groups: groups,
        accounts: vec!["signer1".to_string()],
        pre_balances: vec![5],
    }
}

fn block(transactions: Vec<Transaction>) -> Block {
    Block {
        slot: 42,
        parent_slot: 41,
        blockhash: "HASHBBBB".to_string(),
        previous_blockhash: "HASHAAAA".to_string(),
        block_height: 40,
        block_time: 1700000000,
        transactions,
    }
}

fn col<'a>(row: &'a TableRow, name: Col) -> &'a Value {
    &row.columns.iter().find(|c| c.0 == name).expect("column missing").1
}

#[test]
fn single_top_level_trade_has_sentinel_ancestry() {
    let b = block(vec![tx(vec![instr(FRENS, &[], &[1])], vec![])]);
    let (tables, errors) = block_database_changes(&b, &FRENS.to_string(), &TestDecoder::new());
    assert!(errors.is_empty());
    let trade_rows: Vec<&TableRow> =
        tables.rows.iter().filter(|r| r.table == TableKind::TradeEvents).collect();
    assert_eq!(trade_rows.len(), 1);
    let row = trade_rows[0];
    assert_eq!(row.slot, 42);
    assert_eq!(row.transaction_index, Some(0));
    assert_eq!(row.instruction_index, Some(0));
    assert_eq!(col(row, Col::ParentInstructionProgramId), &Value::Text(String::new()));
    assert_eq!(col(row, Col::ParentInstructionIndex), &Value::I64(-1));
    assert_eq!(col(row, Col::TopInstructionProgramId), &Value::Text(String::new()));
    assert_eq!(col(row, Col::TopInstructionIndex), &Value::I64(-1));
    assert_eq!(col(row, Col::AmountIn), &Value::U64(80));
    let summaries: Vec<&TableRow> =
        tables.rows.iter().filter(|r| r.table == TableKind::Transactions).collect();
    assert_eq!(summaries.len(), 1);
}

#[test]
fn inner_claim_names_the_unrelated_parent() {
    let outer = instr("UnrelatedProgram11111", &[], &[9]);
    let groups = vec![InnerInstructionGroup {
        index: 0,
        instructions: vec![InnerInstruction {
            instruction: instr(FRENS, &[], &[2]),
            stack_height: 2,
        }],
    }];
    let b = block(vec![tx(vec![outer], groups)]);
    let (tables, errors) = block_database_changes(&b, &FRENS.to_string(), &TestDecoder::new());
    assert!(errors.is_empty());
    let rows: Vec<&TableRow> =
        tables.rows.iter().filter(|r| r.table == TableKind::ClaimVestedEvents).collect();
    assert_eq!(rows.len(), 1);
    let row = rows[0];
    assert_eq!(row.instruction_index, Some(1));
    assert_eq!(
        col(row, Col::ParentInstructionProgramId),
        &Value::Text("UnrelatedProgram11111".to_string())
    );
    assert_eq!(col(row, Col::ParentInstructionIndex), &Value::I64(0));
    assert_eq!(
        col(row, Col::TopInstructionProgramId),
        &Value::Text("UnrelatedProgram11111".to_string())
    );
    assert_eq!(col(row, Col::TopInstructionIndex), &Value::I64(0));
    assert_eq!(col(row, Col::ClaimAmount), &Value::U64(123));
}

#[test]
fn failed_transaction_produces_no_rows() {
    let mut t = tx(vec![instr(FRENS, &[], &[1])], vec![]);
    t.err = true;
    let b = block(vec![t]);
    let (tables, errors) = block_database_changes(&b, &FRENS.to_string(), &TestDecoder::new());
    assert!(errors.is_empty());
    assert_eq!(tables.rows.len(), 1);
    assert_eq!(tables.rows[0].table, TableKind::Blocks);
}

#[test]
fn summary_row_only_when_an_event_was_emitted() {
    // First transaction decodes to nothing; second to a trade.
    let quiet = tx(vec![instr(FRENS, &[], &[3])], vec![]);
    let loud = tx(vec![instr(FRENS, &[], &[1])], vec![]);
    let b = block(vec![quiet, loud]);
    let (tables, _) = block_database_changes(&b, &FRENS.to_string(), &TestDecoder::new());
    let summaries: Vec<&TableRow> =
        tables.rows.iter().filter(|r| r.table == TableKind::Transactions).collect();
    assert_eq!(summaries.len(), 1);
    assert_eq!(summaries[0].transaction_index, Some(1));
}

#[test]
fn decode_error_aborts_only_its_transaction() {
    let bad = tx(vec![instr(FRENS, &[], &[4])], vec![]);
    let good = tx(vec![instr(FRENS, &[], &[1])], vec![]);
    let b = block(vec![bad, good]);
    let (tables, errors) = block_database_changes(&b, &FRENS.to_string(), &TestDecoder::new());
    assert_eq!(errors.len(), 1);
    assert_eq!(errors[0].signature, "SIGNATUREAAAA");
    assert_eq!(errors[0].message, "malformed instruction data");
    let trade_rows: Vec<&TableRow> =
        tables.rows.iter().filter(|r| r.table == TableKind::TradeEvents).collect();
    assert_eq!(trade_rows.len(), 1);
    assert_eq!(trade_rows[0].transaction_index, Some(1));
}

#[test]
fn corrupt_depth_aborts_only_its_transaction() {
    let corrupt = tx(
        vec![instr("whatever", &[], &[])],
        vec![InnerInstructionGroup {
            index: 0,
            instructions: vec![InnerInstruction {
                instruction: instr(FRENS, &[], &[2]),
                stack_height: 1,
            }],
        }],
    );
    let good = tx(vec![instr(FRENS, &[], &[1])], vec![]);
    let b = block(vec![corrupt, good]);
    let (tables, errors) = block_database_changes(&b, &FRENS.to_string(), &TestDecoder::new());
    assert_eq!(errors.len(), 1);
    assert_eq!(errors[0].signature, "SIGNATUREAAAA");
    let trade_rows: Vec<&TableRow> =
        tables.rows.iter().filter(|r| r.table == TableKind::TradeEvents).collect();
    assert_eq!(trade_rows.len(), 1);
}

#[test]
fn partial_columns_are_first_four_characters() {
    let b = block(vec![tx(vec![instr(FRENS, &[], &[1])], vec![])]);
    let (tables, _) = block_database_changes(&b, &FRENS.to_string(), &TestDecoder::new());
    let row = tables.rows.iter().find(|r| r.table == TableKind::TradeEvents).unwrap();
    assert_eq!(col(row, Col::PartialSignature), &Value::Text("SIGN".to_string()));
    assert_eq!(col(row, Col::PartialBlockhash), &Value::Text("HASH".to_string()));
    let n = row.columns.len();
    assert_eq!(row.columns[n - 2].0, Col::PartialSignature);
    assert_eq!(row.columns[n - 1].0, Col::PartialBlockhash);
}

#[test]
fn signer_slots_fill_in_order_and_pad_with_empty() {
    let b = block(vec![tx(vec![instr(FRENS, &[], &[1])], vec![])]);
    let (tables, _) = block_database_changes(&b, &FRENS.to_string(), &TestDecoder::new());
    let row = tables.rows.iter().find(|r| r.table == TableKind::Transactions).unwrap();
    assert_eq!(col(row, Col::NumberOfSigners), &Value::U64(2));
    assert_eq!(col(row, Col::Signer(0)), &Value::Text("signer1".to_string()));
    assert_eq!(col(row, Col::Signer(1)), &Value::Text("signer2".to_string()));
    for i in 2..8 {
        assert_eq!(col(row, Col::Signer(i)), &Value::Text(String::new()));
    }
    assert_eq!(col(row, Col::Signature), &Value::Text("SIGNATUREAAAA".to_string()));
}

#[test]
fn block_summary_row_is_last_and_exact() {
    let b = block(vec![]);
    let (tables, _) = block_database_changes(&b, &FRENS.to_string(), &TestDecoder::new());
    assert_eq!(tables.rows.len(), 1);
    let row = &tables.rows[0];
    assert_eq!(row.table, TableKind::Blocks);
    assert_eq!(row.slot, 42);
    assert_eq!(col(row, Col::ParentSlot), &Value::U64(41));
    assert_eq!(col(row, Col::BlockHeight), &Value::U64(40));
    assert_eq!(col(row, Col::Blockhash), &Value::Text("HASHBBBB".to_string()));
    assert_eq!(col(row, Col::PreviousBlockhash), &Value::Text("HASHAAAA".to_string()));
    assert_eq!(col(row, Col::BlockTime), &Value::I64(1700000000));
}

#[test]
fn pipeline_is_deterministic() {
    let make = || {
        let inner_groups = vec![InnerInstructionGroup {
            index: 0,
            instructions: vec![InnerInstruction {
                instruction: instr(FRENS, &[], &[2]),
                stack_height: 2,
            }],
        }];
        block(vec![
            tx(vec![instr(FRENS, &[], &[1])], vec![]),
            tx(vec![instr("outer", &[], &[])], inner_groups),
        ])
    };
    let (t1, e1) = block_database_changes(&make(), &FRENS.to_string(), &TestDecoder::new());
    let (t2, e2) = block_database_changes(&make(), &FRENS.to_string(), &TestDecoder::new());
    assert_eq!(t1, t2);
    assert_eq!(e1, e2);
}

#[test]
fn pool_create_row_columns_in_order() {
    let event = FrensEvent::PoolCreate(PoolCreateEvent {
        trx_hash: "h".to_string(),
        platform_id: "p".to_string(),
        pool_state: "ps".to_string(),
        creator: "cr".to_string(),
        config: "cf".to_string(),
        base_mint_param: MintParams {
            name: "curve".to_string(),
            symbol: "CRV".to_string(),
            uri: "uri://x".to_string(),
            decimals: 6,
        },
        curve_param: 7,
        vesting_param: VestingParams {
            total_locked_amount: 1000,
            cliff_period: 10,
            unlock_period: 20,
        },
    });
    let row = parse_frens_instruction(event, 5, 3, 2);
    assert_eq!(row.table, TableKind::PoolCreateEvents);
    assert_eq!(row.slot, 5);
    assert_eq!(row.transaction_index, Some(3));
    assert_eq!(row.instruction_index, Some(2));
    let names: Vec<Col> = row.columns.iter().map(|c| c.0).collect();
    assert_eq!(
        names,
        vec![
            Col::TrxHash,
            Col::PlatformId,
            Col::PoolState,
            Col::Creator,
            Col::Config,
            Col::CurveName,
            Col::Symbol,
            Col::Uri,
            Col::Decimals,
            Col::CurveParam,
            Col::TotalLockedAmount,
            Col::CliffPeriod,
            Col::UnlockPeriod,
        ]
    );
    assert_eq!(col(&row, Col::Decimals), &Value::U32(6));
    assert_eq!(col(&row, Col::CurveParam), &Value::U64(7));
}

#[test]
fn create_vesting_row_columns() {
    let event = FrensEvent::CreateVesting(CreateVestingEvent {
        trx_hash: "h2".to_string(),
        pool_state: "ps2".to_string(),
        beneficiary: "ben".to_string(),
        share_amount: 77,
    });
    let row = parse_frens_instruction(event, 1, 0, 0);
    assert_eq!(row.table, TableKind::CreateVestingEvents);
    assert_eq!(col(&row, Col::ShareAmount), &Value::U64(77));
    assert_eq!(col(&row, Col::Beneficiary), &Value::Text("ben".to_string()));
}

#[test]
fn parse_transaction_reports_whether_rows_were_appended() {
    let mut tables = Tables { rows: Vec::new() };
    let quiet = tx(vec![instr("unregistered", &[], &[1])], vec![]);
    let changed =
        parse_transaction(
            &quiet,
            0,
            42,
            &"HASHBBBB".to_string(),
            &FRENS.to_string(),
            &TestDecoder::new(),
            &mut tables,
        )
            .unwrap();
    assert!(!changed);
    assert!(tables.rows.is_empty());
    let loud = tx(vec![instr(FRENS, &[], &[1])], vec![]);
    let changed =
        parse_transaction(
            &loud,
            0,
            42,
            &"HASHBBBB".to_string(),
            &FRENS.to_string(),
            &TestDecoder::new(),
            &mut tables,
        )
            .unwrap();
    assert!(changed);
    assert_eq!(tables.rows.len(), 1);
}

#[test]
fn transactions_row_builder_is_exact() {
    let row = transactions_row(
        &"SIGX".to_string(),
        &vec!["a".to_string(), "b".to_string(), "c".to_string()],
        9,
        4,
    );
    assert_eq!(row.table, TableKind::Transactions);
    assert_eq!(row.slot, 9);
    assert_eq!(row.transaction_index, Some(4));
    assert_eq!(row.instruction_index, None);
    assert_eq!(row.columns.len(), 10);
    assert_eq!(col(&row, Col::NumberOfSigners), &Value::U64(3));
    assert_eq!(col(&row, Col::Signer(2)), &Value::Text("c".to_string()));
    assert_eq!(col(&row, Col::Signer(7)), &Value::Text(String::new()));
}

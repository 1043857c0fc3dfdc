use frens_indexer::context::{get_context, get_signature, get_signers, read_u32_le, read_u64_le};
use frens_indexer::indexer::{get_indexed_instructions, IndexError};
use frens_indexer::model::{InnerInstruction, InnerInstructionGroup, Instruction, Transaction};

fn instr(program_id: &str, accounts: &[&str], data: &[u8]) -> Instruction {
    Instruction {
        program_id: program_id.to_string(),
        accounts: accounts.iter().map(|a| a.to_string()).collect(),
        data: data.to_vec(),
    }
}

fn inner(program_id: &str, stack_height: u32) -> InnerInstruction {
    InnerInstruction {
        instruction: instr(program_id, &[], &[]),
        stack_height,
    }
}

fn bare_tx(instructions: Vec<Instruction>, groups: Vec<InnerInstructionGroup>) -> Transaction {
    Transaction {
        err: false,
        signature: "5igSig11111".to_string(),
        signers: vec!["signerA".to_string()],
        instructions,
        inner_instruction_groups: groups,
        accounts: vec![],
        pre_balances: vec![],
    }
}

#[test]
fn indices_are_contiguous_and_ordered() {
    let tx = bare_tx(
        vec![instr("progA", &[], &[]), instr("progB", &[], &[])],
        vec![InnerInstructionGroup {
            index: 0,
            instructions: vec![inner("progC", 2), inner("progD", 3), inner("progE", 3), inner("progF", 2)],
        }],
    );
    let ix = get_indexed_instructions(&tx).unwrap();
    let nodes = ix.flattened();
    assert_eq!(nodes.len(), 6);
    for (i, node) in nodes.iter().enumerate() {
        assert_eq!(node.index, i);
    }
    let order: Vec<&str> = nodes.iter().map(|n| n.instruction.program_id.as_str()).collect();
    assert_eq!(order, vec!["progA", "progC", "progD", "progE", "progF", "progB"]);
}

#[test]
fn depth_stack_rebuilds_parents() {
    // Heights 2,3,3,2 under one top-level instruction: the two entries at
    // depth 3 are siblings under the first inner entry; the final entry at
    // depth 2 is a sibling of that first entry, under the top node.
    let tx = bare_tx(
        vec![instr("progA", &[], &[])],
        vec![InnerInstructionGroup {
            index: 0,
            instructions: vec![inner("c1", 2), inner("c2", 3), inner("c3", 3), inner("c4", 2)],
        }],
    );
    let ix = get_indexed_instructions(&tx).unwrap();
    let nodes = ix.flattened();
    assert_eq!(nodes[0].parent_index, None);
    assert_eq!(nodes[0].top_index, 0);
    assert_eq!(nodes[1].parent_index, Some(0));
    assert_eq!(nodes[2].parent_index, Some(1));
    assert_eq!(nodes[3].parent_index, Some(1));
    assert_eq!(nodes[4].parent_index, Some(0));
    for i in 1..5 {
        assert_eq!(nodes[i].top_index, 0);
    }
}

#[test]
fn depth_jump_opens_a_single_level() {
    // A jump from depth 2 straight to depth 5 still nests one level deep.
    let tx = bare_tx(
        vec![instr("progA", &[], &[])],
        vec![InnerInstructionGroup {
            index: 0,
            instructions: vec![inner("c1", 2), inner("c2", 5)],
        }],
    );
    let ix = get_indexed_instructions(&tx).unwrap();
    let nodes = ix.flattened();
    assert_eq!(nodes[2].parent_index, Some(1));
}

#[test]
fn second_top_level_resets_the_stack() {
    let tx = bare_tx(
        vec![instr("progA", &[], &[]), instr("progB", &[], &[])],
        vec![
            InnerInstructionGroup { index: 0, instructions: vec![inner("c1", 2)] },
            InnerInstructionGroup { index: 1, instructions: vec![inner("c2", 2)] },
        ],
    );
    let ix = get_indexed_instructions(&tx).unwrap();
    let nodes = ix.flattened();
    assert_eq!(nodes[2].parent_index, None);
    assert_eq!(nodes[2].top_index, 2);
    assert_eq!(nodes[3].parent_index, Some(2));
    assert_eq!(nodes[3].top_index, 2);
}

#[test]
fn depth_below_top_level_is_an_error() {
    let tx = bare_tx(
        vec![instr("progA", &[], &[])],
        vec![InnerInstructionGroup { index: 0, instructions: vec![inner("c1", 1)] }],
    );
    assert_eq!(get_indexed_instructions(&tx), Err(IndexError::DepthBelowTopLevel));
}

#[test]
fn group_index_out_of_range_is_an_error() {
    let tx = bare_tx(
        vec![instr("progA", &[], &[])],
        vec![InnerInstructionGroup { index: 3, instructions: vec![inner("c1", 2)] }],
    );
    assert_eq!(get_indexed_instructions(&tx), Err(IndexError::GroupIndexOutOfRange));
}

#[test]
fn parent_and_top_accessors() {
    let tx = bare_tx(
        vec![instr("progA", &[], &[])],
        vec![InnerInstructionGroup {
            index: 0,
            instructions: vec![inner("c1", 2), inner("c2", 3)],
        }],
    );
    let ix = get_indexed_instructions(&tx).unwrap();
    assert!(ix.parent_instruction(0).is_none());
    assert!(ix.top_instruction(0).is_none());
    let parent = ix.parent_instruction(2).unwrap();
    assert_eq!(parent.index, 1);
    let top = ix.top_instruction(2).unwrap();
    assert_eq!(top.index, 0);
    assert_eq!(top.instruction.program_id, "progA");
}

#[test]
fn little_endian_readers() {
    let data = vec![0x02, 0x00, 0x00, 0x00, 0x10, 0x27, 0x00, 0x00, 0x00, 0x00, 0x00, 0x00];
    assert_eq!(read_u32_le(&data, 0), 2);
    assert_eq!(read_u64_le(&data, 4), 10000);
    let max = vec![0xff; 8];
    assert_eq!(read_u64_le(&max, 0), u64::MAX);
}

const SYS: &str = "11111111111111111111111111111111";
const TOK: &str = "TokenkegQfeZyiNwAJbNbGKPFXCWuBvf9Ss623VQ5DA";

fn funded_tx() -> Transaction {
    Transaction {
        err: false,
        signature: "sigFunded11".to_string(),
        signers: vec!["alice".to_string()],
        instructions: vec![],
        inner_instruction_groups: vec![],
        accounts: vec!["alice".to_string(), "bob".to_string()],
        pre_balances: vec![1000, 50],
    }
}

fn transfer_data(discriminant: u32, lamports: u64) -> Vec<u8> {
    let mut d = discriminant.to_le_bytes().to_vec();
    d.extend_from_slice(&lamports.to_le_bytes());
    d
}

#[test]
fn system_transfer_moves_balance() {
    let tx = funded_tx();
    let mut context = get_context(&tx);
    let ins = instr(SYS, &["alice", "bob"], &transfer_data(2, 300));
    context.update_balance(&ins);
    assert_eq!(context.get_balance(&"alice".to_string()), Some(700));
    assert_eq!(context.get_balance(&"bob".to_string()), Some(350));
}

#[test]
fn debit_saturates_at_zero() {
    let tx = funded_tx();
    let mut context = get_context(&tx);
    let ins = instr(SYS, &["bob", "alice"], &transfer_data(2, 80));
    context.update_balance(&ins);
    assert_eq!(context.get_balance(&"bob".to_string()), Some(0));
    assert_eq!(context.get_balance(&"alice".to_string()), Some(1080));
}

#[test]
fn unknown_program_is_a_noop() {
    let tx = funded_tx();
    let mut context = get_context(&tx);
    let ins = instr("someOtherProgram", &["alice", "bob"], &transfer_data(2, 300));
    context.update_balance(&ins);
    assert_eq!(context.get_balance(&"alice".to_string()), Some(1000));
    assert_eq!(context.get_balance(&"bob".to_string()), Some(50));
}

#[test]
fn token_mint_and_burn_adjust_single_accounts() {
    let tx = funded_tx();
    let mut context = get_context(&tx);
    let mut mint = vec![7u8];
    mint.extend_from_slice(&25u64.to_le_bytes());
    // Mint-to credits the second account (the destination).
    context.update_balance(&instr(TOK, &["mintX", "bob"], &mint));
    assert_eq!(context.get_balance(&"bob".to_string()), Some(75));
    let mut burn = vec![8u8];
    burn.extend_from_slice(&30u64.to_le_bytes());
    context.update_balance(&instr(TOK, &["alice", "mintX"], &burn));
    assert_eq!(context.get_balance(&"alice".to_string()), Some(970));
}

#[test]
fn short_data_is_a_noop() {
    let tx = funded_tx();
    let mut context = get_context(&tx);
    context.update_balance(&instr(SYS, &["alice", "bob"], &[2, 0, 0, 0]));
    assert_eq!(context.get_balance(&"alice".to_string()), Some(1000));
}

#[test]
fn context_projections() {
    let tx = funded_tx();
    let context = get_context(&tx);
    assert_eq!(context.get_signature(), &"sigFunded11".to_string());
    assert_eq!(context.get_signers(), &vec!["alice".to_string()]);
    assert_eq!(get_signature(&tx), &"sigFunded11".to_string());
    assert_eq!(get_signers(&tx), &vec!["alice".to_string()]);
    assert_eq!(context.get_balance(&"nobody".to_string()), None);
}

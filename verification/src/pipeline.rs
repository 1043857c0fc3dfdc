//! The per-block driver. For each successful transaction it rebuilds the
//! instruction tree, replays the balance context in execution order, asks
//! the registered decoder about every instruction owned by its program, and
//! turns each decoded event into one keyed row with ancestry and partial
//! join columns; one summary row per transaction that produced output, and
//! one summary row per block. A failed transaction contributes nothing; a
//! structurally corrupt one contributes nothing but an error carrying its
//! signature, and never stops the rest of the block.

use vstd::prelude::*;
use vstd::string::StrSliceExecFns;

use crate::context::{get_context, get_signature, get_signers, string_views};
use crate::events::FrensEvent;
use crate::indexer::{
    get_indexed_instructions, groups_ok, heights_ok, lemma_links_in_bounds, well_formed,
    IndexedInstruction, IndexError,
};
use crate::model::{Block, Instruction, Transaction};
use crate::rows::{
    ancestry_columns, block_row, block_rowv, event_columns, event_rowv, event_table,
    parse_instruction, row_view, tables_view, transactions_row, transactions_rowv, Col, RowV,
    TableKind, TableRow, Tables, Value, ValueV,
};
use crate::context::TransactionContext;

verus! {

/// An error crossing the transaction boundary, enriched with the owning
/// transaction's signature so a block-level caller can attribute it.
#[derive(Debug, PartialEq, Eq)]
pub struct PipelineError {
    pub signature: String,
    pub message: String,
}

/// A program decoder registered with the dispatcher. The registry pairs it
/// with the program id it is registered under; the dispatcher consults it
/// only for instructions owned by that program, and it turns one
/// instruction, under the current context, into at most one typed event
/// (or a decode error).
pub trait FrensDecoder {
    fn decode(
        &self,
        transaction: &Transaction,
        instruction: &Instruction,
        context: &TransactionContext,
    ) -> Result<Option<FrensEvent>, String>;
}

/// The two partial join columns: exactly the first four characters of the
/// signature and of the blockhash.
pub open spec fn partial_columns(signature: Seq<char>, blockhash: Seq<char>) -> Seq<
    (Col, ValueV),
> {
    seq![
        (Col::PartialSignature, ValueV::Text(signature.subrange(0, 4))),
        (Col::PartialBlockhash, ValueV::Text(blockhash.subrange(0, 4))),
    ]
}

/// The complete row of one decoded event: event columns, ancestry columns,
/// partial join columns.
pub open spec fn finished_rowv(
    e: FrensEvent,
    nodes: Seq<IndexedInstruction>,
    i: int,
    slot: u64,
    transaction_index: u32,
    signature: Seq<char>,
    blockhash: Seq<char>,
) -> RowV {
    RowV {
        table: event_table(e),
        slot: slot,
        transaction_index: Some(transaction_index),
        instruction_index: Some(i as u64),
        columns: event_columns(e) + ancestry_columns(nodes, i) + partial_columns(
            signature,
            blockhash,
        ),
    }
}

/// A row this transaction may append: the complete row of some decoded
/// event at some node of the transaction's well-formed instruction arena,
/// that node being owned by the registered program.
pub open spec fn appended_row_ok(
    rv: RowV,
    tx: Transaction,
    slot: u64,
    transaction_index: u32,
    blockhash: Seq<char>,
    target: Seq<char>,
) -> bool {
    exists|e: FrensEvent, nodes: Seq<IndexedInstruction>, i: int|
        #![trigger finished_rowv(e, nodes, i, slot, transaction_index, tx.signature@, blockhash)]
        well_formed(tx, nodes) && 0 <= i < nodes.len() && nodes[i].instruction.program_id@
            == target && rv == finished_rowv(
            e,
            nodes,
            i,
            slot,
            transaction_index,
            tx.signature@,
            blockhash,
        )
}

/// A buffered row before the partial join columns are attached.
pub open spec fn pending_row_ok(
    row: TableRow,
    nodes: Seq<IndexedInstruction>,
    slot: u64,
    transaction_index: u32,
    target: Seq<char>,
) -> bool {
    exists|e: FrensEvent, i: int|
        #![trigger event_rowv(e, nodes, i, slot, transaction_index)]
        0 <= i < nodes.len() && nodes[i].instruction.program_id@ == target && row_view(row)
            == event_rowv(e, nodes, i, slot, transaction_index)
}

/// Processes one transaction against the accumulated tables. A failed
/// transaction appends nothing and reports no output; structural
/// corruption is always reported as an error carrying the signature, and
/// appends nothing, as does a decode error; otherwise every decoded event
/// of an instruction owned by the registered program appends one complete
/// row, and the result says whether any row was appended.
pub fn parse_transaction<D: FrensDecoder>(
    transaction: &Transaction,
    transaction_index: u32,
    slot: u64,
    blockhash: &String,
    target_program_id: &String,
    decoder: &D,
    tables: &mut Tables,
) -> (r: Result<bool, PipelineError>)
    requires
        !transaction.err ==> transaction.signature@.len() >= 4,
        blockhash@.len() >= 4,
    ensures
        tables_view(*final(tables)).len() >= tables_view(*old(tables)).len(),
        forall|j: int|
            0 <= j < tables_view(*old(tables)).len() ==> #[trigger] tables_view(*final(tables))[j]
                == tables_view(*old(tables))[j],
        forall|j: int|
            tables_view(*old(tables)).len() <= j < tables_view(*final(tables)).len()
                ==> appended_row_ok(
                #[trigger] tables_view(*final(tables))[j],
                *transaction,
                slot,
                transaction_index,
                blockhash@,
                target_program_id@,
            ),
        transaction.err ==> r == Ok::<bool, PipelineError>(false),
        !transaction.err && !(groups_ok(*transaction) && heights_ok(*transaction)) ==> r is Err,
        r == Ok::<bool, PipelineError>(false) || r is Err ==> tables_view(*final(tables))
            == tables_view(*old(tables)),
        r == Ok::<bool, PipelineError>(true) ==> tables_view(*final(tables)).len() > tables_view(
            *old(tables),
        ).len(),
        r matches Err(e) ==> e.signature@ == transaction.signature@,
{
    if transaction.err {
        return Ok(false);
    }
    let instructions = match get_indexed_instructions(transaction) {
        Ok(ix) => ix,
        Err(e) => {
            let message = match e {
                IndexError::GroupIndexOutOfRange => "inner instruction group names a top-level position that does not exist".to_owned(),
                IndexError::DepthBelowTopLevel => "inner instruction reports an invocation depth below the first nesting level".to_owned(),
            };
            return Err(PipelineError { signature: transaction.signature.clone(), message });
        },
    };
    let mut context = get_context(transaction);
    let mut pending: Vec<TableRow> = Vec::new();
    let n = instructions.nodes.len();
    let mut i: usize = 0;
    while i < n
        invariant
            0 <= i <= n,
            n == instructions.nodes@.len(),
            !transaction.err,
            groups_ok(*transaction),
            heights_ok(*transaction),
            well_formed(*transaction, instructions.nodes@),
            forall|j: int|
                0 <= j < pending@.len() ==> pending_row_ok(
                    #[trigger] pending@[j],
                    instructions.nodes@,
                    slot,
                    transaction_index,
                    target_program_id@,
                ),
            transaction.signature@.len() >= 4,
        decreases n - i,
    {
        proof {
            lemma_links_in_bounds(*transaction, instructions.nodes@, i as int);
        }
        context.update_balance(&instructions.nodes[i].instruction);
        if instructions.nodes[i].instruction.program_id == *target_program_id {
            match decoder.decode(transaction, &instructions.nodes[i].instruction, &context) {
                Err(message) => {
                    return Err(
                        PipelineError { signature: transaction.signature.clone(), message },
                    );
                },
                Ok(None) => {},
                Ok(Some(event)) => {
                    let ghost ev = event;
                    let row = parse_instruction(
                        &instructions,
                        i,
                        event,
                        slot,
                        transaction_index,
                    );
                    pending.push(row);
                    proof {
                        assert(instructions.nodes@[i as int].instruction.program_id@
                            == target_program_id@);
                        assert(row_view(pending@[pending@.len() - 1]) == event_rowv(
                            ev,
                            instructions.nodes@,
                            i as int,
                            slot,
                            transaction_index,
                        ));
                    }
                },
            }
        }
        i += 1;
    }
    if pending.len() == 0 {
        return Ok(false);
    }
    let psig = transaction.signature.as_str().substring_char(0, 4).to_owned();
    let pbh = blockhash.as_str().substring_char(0, 4).to_owned();
    let plen = pending.len();
    let mut j: usize = 0;
    while j < plen
        invariant
            0 <= j <= plen,
            plen == pending@.len(),
            !transaction.err,
            groups_ok(*transaction),
            heights_ok(*transaction),
            psig@ == transaction.signature@.subrange(0, 4),
            pbh@ == blockhash@.subrange(0, 4),
            well_formed(*transaction, instructions.nodes@),
            forall|j2: int|
                j <= j2 < plen ==> pending_row_ok(
                    #[trigger] pending@[j2],
                    instructions.nodes@,
                    slot,
                    transaction_index,
                    target_program_id@,
                ),
            forall|j2: int|
                0 <= j2 < j ==> appended_row_ok(
                    row_view(#[trigger] pending@[j2]),
                    *transaction,
                    slot,
                    transaction_index,
                    blockhash@,
                    target_program_id@,
                ),
        decreases plen - j,
    {
        let ghost row_before = pending@[j as int];
        pending[j].columns.push((Col::PartialSignature, Value::Text(psig.clone())));
        pending[j].columns.push((Col::PartialBlockhash, Value::Text(pbh.clone())));
        proof {
            let (e, i0) = choose|e: FrensEvent, i0: int|
                #![trigger event_rowv(e, instructions.nodes@, i0, slot, transaction_index)]
                0 <= i0 < instructions.nodes@.len()
                    && instructions.nodes@[i0].instruction.program_id@ == target_program_id@
                    && row_view(row_before) == event_rowv(
                    e,
                    instructions.nodes@,
                    i0,
                    slot,
                    transaction_index,
                );
            let fin = finished_rowv(
                e,
                instructions.nodes@,
                i0,
                slot,
                transaction_index,
                transaction.signature@,
                blockhash@,
            );
            assert(row_view(pending@[j as int]).columns =~= fin.columns);
            assert(row_view(pending@[j as int]) == fin);
            assert(appended_row_ok(
                row_view(pending@[j as int]),
                *transaction,
                slot,
                transaction_index,
                blockhash@,
                target_program_id@,
            ));
        }
        j += 1;
    }
    let ghost oldrows = tables.rows@;
    tables.rows.append(&mut pending);
    proof {
        assert forall|j2: int|
            0 <= j2 < tables_view(*tables).len() implies #[trigger] tables_view(*tables)[j2] == (
        if j2 < oldrows.len() {
            row_view(oldrows[j2])
        } else {
            row_view(tables.rows@[j2])
        }) by {
            assert(tables.rows@[j2] == if j2 < oldrows.len() {
                oldrows[j2]
            } else {
                tables.rows@[j2]
            });
        }
    }
    Ok(true)
}

/// An event table, as opposed to the two summary tables.
pub open spec fn is_event_table(k: TableKind) -> bool {
    ||| k == TableKind::PoolCreateEvents
    ||| k == TableKind::TradeEvents
    ||| k == TableKind::CreateVestingEvents
    ||| k == TableKind::ClaimVestedEvents
}

/// Rows keep source order: where both carry a transaction position, the
/// earlier row's is no larger.
pub open spec fn tx_index_le(a: RowV, b: RowV) -> bool {
    match (a.transaction_index, b.transaction_index) {
        (Some(t1), Some(t2)) => t1 <= t2,
        _ => true,
    }
}

/// Row `rv` belongs to transaction `ti`: that transaction succeeded on
/// chain and is structurally sound, and the row is either one of its
/// complete event rows or its one summary row.
pub open spec fn row_of_transaction(rv: RowV, block: Block, ti: int, target: Seq<char>) -> bool {
    &&& rv.transaction_index == Some(ti as u32)
    &&& !block.transactions@[ti].err
    &&& groups_ok(block.transactions@[ti])
    &&& heights_ok(block.transactions@[ti])
    &&& ((is_event_table(rv.table) && appended_row_ok(
        rv,
        block.transactions@[ti],
        block.slot,
        ti as u32,
        block.blockhash@,
        target,
    )) || rv == transactions_rowv(
        block.transactions@[ti].signature@,
        string_views(block.transactions@[ti].signers@),
        block.slot,
        ti as u32,
    ))
}

/// Every emitted row belongs to some transaction with position below
/// `bound`.
pub open spec fn emitted_row_ok(rv: RowV, block: Block, bound: int, target: Seq<char>) -> bool {
    exists|ti: int| 0 <= ti < bound && #[trigger] row_of_transaction(rv, block, ti, target)
}

/// There is an event row for transaction `ti`.
pub open spec fn has_event_row(v: Seq<RowV>, ti: int) -> bool {
    exists|j: int|
        0 <= j < v.len() && is_event_table((#[trigger] v[j]).table) && v[j].transaction_index
            == Some(ti as u32)
}

/// There is a summary row for transaction `ti`.
pub open spec fn has_summary_row(v: Seq<RowV>, ti: int) -> bool {
    exists|j: int|
        0 <= j < v.len() && (#[trigger] v[j]).table == TableKind::Transactions
            && v[j].transaction_index == Some(ti as u32)
}

/// The error carries the signature of some transaction of the block.
pub open spec fn error_attributed(e: PipelineError, block: Block) -> bool {
    exists|ti: int|
        0 <= ti < block.transactions@.len() && e.signature@ == (
        #[trigger] block.transactions@[ti]).signature@
}

/// The error list names transaction `ti` by its signature.
pub open spec fn corruption_reported(errors: Seq<PipelineError>, block: Block, ti: int) -> bool {
    exists|k: int|
        0 <= k < errors.len() && (#[trigger] errors[k]).signature@
            == block.transactions@[ti].signature@
}

/// Processes one block: every transaction in source order, then the block
/// summary row. Rows are emitted in transaction order; a structurally
/// corrupt transaction contributes no rows but always an attributed error,
/// and every returned error carries the signature of a transaction of this
/// block. Errors never abort the block.
pub fn block_database_changes<D: FrensDecoder>(
    block: &Block,
    target_program_id: &String,
    decoder: &D,
) -> (r: (Tables, Vec<PipelineError>))
    requires
        block.blockhash@.len() >= 4,
        block.transactions@.len() <= u32::MAX,
        forall|t: int|
            0 <= t < block.transactions@.len() ==> (!(#[trigger] block.transactions@[t]).err
                ==> block.transactions@[t].signature@.len() >= 4),
    ensures
        tables_view(r.0).len() >= 1,
        tables_view(r.0)[tables_view(r.0).len() - 1] == block_rowv(*block),
        forall|j: int|
            0 <= j < tables_view(r.0).len() - 1 ==> emitted_row_ok(
                #[trigger] tables_view(r.0)[j],
                *block,
                block.transactions@.len() as int,
                target_program_id@,
            ),
        forall|ti: int|
            0 <= ti < block.transactions@.len() ==> (has_event_row(tables_view(r.0), ti)
                <==> has_summary_row(tables_view(r.0), ti)),
        forall|j1: int, j2: int|
            0 <= j1 < j2 < tables_view(r.0).len() && (#[trigger] tables_view(r.0)[j1]).table
                == TableKind::Transactions && (#[trigger] tables_view(r.0)[j2]).table
                == TableKind::Transactions ==> tables_view(r.0)[j1].transaction_index
                != tables_view(r.0)[j2].transaction_index,
        forall|j1: int, j2: int|
            0 <= j1 < j2 < tables_view(r.0).len() ==> #[trigger] tx_index_le(
                tables_view(r.0)[j1],
                tables_view(r.0)[j2],
            ),
        forall|ti: int|
            0 <= ti < block.transactions@.len() && !(#[trigger] block.transactions@[ti]).err && !(
            groups_ok(block.transactions@[ti]) && heights_ok(block.transactions@[ti]))
                ==> corruption_reported(r.1@, *block, ti),
        forall|k: int| 0 <= k < r.1@.len() ==> error_attributed(#[trigger] r.1@[k], *block),
{
    let mut tables = Tables { rows: Vec::new() };
    let mut errors: Vec<PipelineError> = Vec::new();
    let ntx = block.transactions.len();
    let mut index: usize = 0;
    while index < ntx
        invariant
            0 <= index <= ntx,
            ntx == block.transactions@.len(),
            ntx <= u32::MAX,
            block.blockhash@.len() >= 4,
            forall|t: int|
                0 <= t < ntx ==> (!(#[trigger] block.transactions@[t]).err
                    ==> block.transactions@[t].signature@.len() >= 4),
            forall|j: int|
                0 <= j < tables_view(tables).len() ==> emitted_row_ok(
                    #[trigger] tables_view(tables)[j],
                    *block,
                    index as int,
                    target_program_id@,
                ),
            forall|j: int|
                0 <= j < tables_view(tables).len() ==> ((#[trigger] tables_view(
                    tables,
                )[j]).transaction_index matches Some(t) ==> t < index),
            forall|j1: int, j2: int|
                0 <= j1 < j2 < tables_view(tables).len() ==> #[trigger] tx_index_le(
                    tables_view(tables)[j1],
                    tables_view(tables)[j2],
                ),
            forall|ti: int|
                0 <= ti < index ==> (has_event_row(tables_view(tables), ti) <==> has_summary_row(
                    tables_view(tables),
                    ti,
                )),
            forall|ti: int|
                index <= ti < ntx ==> !has_event_row(tables_view(tables), ti)
                    && !has_summary_row(tables_view(tables), ti),
            forall|j1: int, j2: int|
                0 <= j1 < j2 < tables_view(tables).len() && (#[trigger] tables_view(
                    tables,
                )[j1]).table == TableKind::Transactions && (#[trigger] tables_view(
                    tables,
                )[j2]).table == TableKind::Transactions ==> tables_view(
                    tables,
                )[j1].transaction_index != tables_view(tables)[j2].transaction_index,
            forall|ti: int|
                0 <= ti < index && !(#[trigger] block.transactions@[ti]).err && !(groups_ok(
                    block.transactions@[ti],
                ) && heights_ok(block.transactions@[ti])) ==> corruption_reported(
                    errors@,
                    *block,
                    ti,
                ),
            forall|k: int| 0 <= k < errors@.len() ==> error_attributed(#[trigger] errors@[k], *block),
        decreases ntx - index,
    {
        let transaction = &block.transactions[index];
        let ghost v_before = tables_view(tables);
        match parse_transaction(
            transaction,
            index as u32,
            block.slot,
            &block.blockhash,
            target_program_id,
            decoder,
            &mut tables,
        ) {
            Ok(true) => {
                proof {
                    assert(!block.transactions@[index as int].err);
                    assert(groups_ok(block.transactions@[index as int]) && heights_ok(
                        block.transactions@[index as int],
                    ));
                    lemma_emitted_step(
                        *block,
                        v_before,
                        tables_view(tables),
                        index as int,
                        target_program_id@,
                    );
                }
                let signers = get_signers(transaction);
                let row = transactions_row(
                    get_signature(transaction),
                    signers,
                    block.slot,
                    index as u32,
                );
                let ghost v_mid = tables_view(tables);
                tables.rows.push(row);
                proof {
                    assert(tables_view(tables) =~= v_mid.push(
                        transactions_rowv(
                            block.transactions@[index as int].signature@,
                            string_views(block.transactions@[index as int].signers@),
                            block.slot,
                            index as u32,
                        ),
                    ));
                    lemma_summary_step(
                        *block,
                        v_before,
                        v_mid,
                        tables_view(tables),
                        index as int,
                        target_program_id@,
                    );
                    let v_now = tables_view(tables);
                    assert forall|j: int| 0 <= j < v_now.len() implies ((
                    #[trigger] v_now[j]).transaction_index matches Some(t) ==> t < index as int
                        + 1) by {
                        if j < v_before.len() {
                            assert(v_now[j] == v_mid[j]);
                            assert(v_mid[j] == v_before[j]);
                        } else {
                            assert(v_now[j].transaction_index == Some(index as u32));
                        }
                    }
                    assert forall|j1: int, j2: int|
                        0 <= j1 < j2 < v_now.len() implies #[trigger] tx_index_le(
                        v_now[j1],
                        v_now[j2],
                    ) by {
                        if j2 < v_before.len() {
                            assert(v_now[j1] == v_mid[j1] && v_mid[j1] == v_before[j1]);
                            assert(v_now[j2] == v_mid[j2] && v_mid[j2] == v_before[j2]);
                            assert(tx_index_le(v_before[j1], v_before[j2]));
                        } else {
                            assert(v_now[j2].transaction_index == Some(index as u32));
                            if j1 < v_before.len() {
                                assert(v_now[j1] == v_mid[j1] && v_mid[j1] == v_before[j1]);
                            } else {
                                assert(v_now[j1].transaction_index == Some(index as u32));
                            }
                        }
                    }
                }
            },
            Ok(false) => {
                proof {
                    assert(tables_view(tables) == v_before);
                    lemma_no_rows_step(
                        *block,
                        tables_view(tables),
                        index as int,
                        target_program_id@,
                    );
                }
            },
            Err(e) => {
                proof {
                    assert(tables_view(tables) == v_before);
                    lemma_no_rows_step(
                        *block,
                        tables_view(tables),
                        index as int,
                        target_program_id@,
                    );
                }
                let ghost olderr = errors@;
                let ghost enew = e;
                errors.push(e);
                proof {
                    assert forall|ti: int|
                        0 <= ti < index as int + 1 && !(#[trigger] block.transactions@[ti]).err
                            && !(groups_ok(block.transactions@[ti]) && heights_ok(
                            block.transactions@[ti],
                        )) implies corruption_reported(errors@, *block, ti) by {
                        if ti < index as int {
                            let k = choose|k: int|
                                0 <= k < olderr.len() && (#[trigger] olderr[k]).signature@
                                    == block.transactions@[ti].signature@;
                            assert(errors@[k] == olderr[k]);
                            assert(corruption_reported(errors@, *block, ti));
                        } else {
                            assert(errors@[olderr.len() as int] == enew);
                            assert(enew.signature@ == block.transactions@[ti].signature@);
                            assert(corruption_reported(errors@, *block, ti));
                        }
                    }
                    assert forall|k: int| 0 <= k < errors@.len() implies error_attributed(
                        #[trigger] errors@[k],
                        *block,
                    ) by {
                        if k < olderr.len() {
                            assert(errors@[k] == olderr[k]);
                            assert(error_attributed(olderr[k], *block));
                        } else {
                            assert(errors@[k] == enew);
                            assert(enew.signature@
                                == block.transactions@[index as int].signature@);
                        }
                    }
                }
            },
        }
        index += 1;
    }
    let brow = block_row(block);
    let ghost v_last = tables_view(tables);
    tables.rows.push(brow);
    proof {
        assert(tables_view(tables) =~= v_last.push(block_rowv(*block)));
        assert forall|ti: int| 0 <= ti < ntx as int implies (has_event_row(
            tables_view(tables),
            ti,
        ) <==> has_summary_row(tables_view(tables), ti)) by {
            lemma_rows_push_non_tx(*block, v_last, block_rowv(*block), ti);
        }
        assert forall|j1: int, j2: int|
            0 <= j1 < j2 < tables_view(tables).len() implies #[trigger] tx_index_le(
            tables_view(tables)[j1],
            tables_view(tables)[j2],
        ) by {
            if j2 < v_last.len() {
                assert(tables_view(tables)[j1] == v_last[j1]);
                assert(tables_view(tables)[j2] == v_last[j2]);
                assert(tx_index_le(v_last[j1], v_last[j2]));
            } else {
                assert(tables_view(tables)[j2] == block_rowv(*block));
            }
        }
    }
    (tables, errors)
}

/// After a transaction appended its event rows, every row still belongs to
/// a transaction at or before it, and the new rows are its event rows.
proof fn lemma_emitted_step(
    block: Block,
    v_before: Seq<RowV>,
    v_after: Seq<RowV>,
    ti: int,
    target: Seq<char>,
)
    requires
        0 <= ti < block.transactions@.len(),
        block.transactions@.len() <= u32::MAX,
        v_after.len() >= v_before.len(),
        forall|j: int| 0 <= j < v_before.len() ==> #[trigger] v_after[j] == v_before[j],
        forall|j: int|
            v_before.len() <= j < v_after.len() ==> appended_row_ok(
                #[trigger] v_after[j],
                block.transactions@[ti],
                block.slot,
                ti as u32,
                block.blockhash@,
                target,
            ),
        forall|j: int|
            0 <= j < v_before.len() ==> emitted_row_ok(#[trigger] v_before[j], block, ti, target),
        !block.transactions@[ti].err,
        groups_ok(block.transactions@[ti]),
        heights_ok(block.transactions@[ti]),
    ensures
        forall|j: int|
            0 <= j < v_after.len() ==> emitted_row_ok(#[trigger] v_after[j], block, ti + 1, target),
        forall|j: int|
            v_before.len() <= j < v_after.len() ==> is_event_table(
                (#[trigger] v_after[j]).table,
            ) && v_after[j].transaction_index == Some(ti as u32),
{
    assert forall|j: int| v_before.len() <= j < v_after.len() implies is_event_table(
        (#[trigger] v_after[j]).table,
    ) && v_after[j].transaction_index == Some(ti as u32) by {
        let (e, nodes, i0) = choose|e: FrensEvent, nodes: Seq<IndexedInstruction>, i0: int|
            #![trigger finished_rowv(e, nodes, i0, block.slot, ti as u32, block.transactions@[ti].signature@, block.blockhash@)]
            well_formed(block.transactions@[ti], nodes) && 0 <= i0 < nodes.len()
                && nodes[i0].instruction.program_id@ == target && v_after[j] == finished_rowv(
                e,
                nodes,
                i0,
                block.slot,
                ti as u32,
                block.transactions@[ti].signature@,
                block.blockhash@,
            );
    }
    assert forall|j: int| 0 <= j < v_after.len() implies emitted_row_ok(
        #[trigger] v_after[j],
        block,
        ti + 1,
        target,
    ) by {
        if j < v_before.len() {
            assert(emitted_row_ok(v_before[j], block, ti, target));
            let t0 = choose|t0: int|
                0 <= t0 < ti && #[trigger] row_of_transaction(v_before[j], block, t0, target);
            assert(row_of_transaction(v_after[j], block, t0, target));
        } else {
            assert(row_of_transaction(v_after[j], block, ti, target));
        }
    }
}

/// Rows of earlier transactions say nothing about transaction `ti` or any
/// later one.
proof fn lemma_no_rows_step(block: Block, v: Seq<RowV>, ti: int, target: Seq<char>)
    requires
        0 <= ti < block.transactions@.len(),
        block.transactions@.len() <= u32::MAX,
        forall|j: int| 0 <= j < v.len() ==> emitted_row_ok(#[trigger] v[j], block, ti, target),
    ensures
        forall|j: int| 0 <= j < v.len() ==> emitted_row_ok(#[trigger] v[j], block, ti + 1, target),
        forall|t2: int| ti <= t2 < block.transactions@.len() ==> !has_event_row(v, t2),
        forall|t2: int| ti <= t2 < block.transactions@.len() ==> !has_summary_row(v, t2),
{
    assert forall|j: int| 0 <= j < v.len() implies emitted_row_ok(
        #[trigger] v[j],
        block,
        ti + 1,
        target,
    ) by {
        let t0 = choose|t0: int|
            0 <= t0 < ti && #[trigger] row_of_transaction(v[j], block, t0, target);
        assert(row_of_transaction(v[j], block, t0, target));
    }
    assert forall|t2: int| ti <= t2 < block.transactions@.len() implies !has_event_row(v, t2)
        && !has_summary_row(v, t2) by {
        assert forall|j: int| 0 <= j < v.len() implies (#[trigger] v[j]).transaction_index != Some(
            t2 as u32,
        ) by {
            let t0 = choose|t0: int|
                0 <= t0 < ti && #[trigger] row_of_transaction(v[j], block, t0, target);
            assert(v[j].transaction_index == Some(t0 as u32));
            assert(t0 as u32 != t2 as u32);
        }
    }
}

/// Appending the one summary row of transaction `ti` after its event rows
/// keeps every per-block fact: each row accounted for, the summary present
/// exactly where events are, summaries unique.
proof fn lemma_summary_step(
    block: Block,
    v_before: Seq<RowV>,
    v_mid: Seq<RowV>,
    v_after: Seq<RowV>,
    ti: int,
    target: Seq<char>,
)
    requires
        0 <= ti < block.transactions@.len(),
        block.transactions@.len() <= u32::MAX,
        !block.transactions@[ti].err,
        groups_ok(block.transactions@[ti]),
        heights_ok(block.transactions@[ti]),
        v_mid.len() > v_before.len(),
        forall|j: int| 0 <= j < v_before.len() ==> #[trigger] v_mid[j] == v_before[j],
        forall|j: int|
            0 <= j < v_mid.len() ==> emitted_row_ok(#[trigger] v_mid[j], block, ti + 1, target),
        forall|j: int|
            v_before.len() <= j < v_mid.len() ==> is_event_table((#[trigger] v_mid[j]).table)
                && v_mid[j].transaction_index == Some(ti as u32),
        forall|t2: int| ti <= t2 < block.transactions@.len() ==> !has_event_row(v_before, t2),
        forall|t2: int| ti <= t2 < block.transactions@.len() ==> !has_summary_row(v_before, t2),
        forall|ti2: int|
            0 <= ti2 < ti ==> (has_event_row(v_before, ti2) <==> has_summary_row(v_before, ti2)),
        forall|j1: int, j2: int|
            0 <= j1 < j2 < v_before.len() && (#[trigger] v_before[j1]).table
                == TableKind::Transactions && (#[trigger] v_before[j2]).table
                == TableKind::Transactions ==> v_before[j1].transaction_index
                != v_before[j2].transaction_index,
        v_after == v_mid.push(
            transactions_rowv(
                block.transactions@[ti].signature@,
                string_views(block.transactions@[ti].signers@),
                block.slot,
                ti as u32,
            ),
        ),
    ensures
        forall|j: int|
            0 <= j < v_after.len() ==> emitted_row_ok(#[trigger] v_after[j], block, ti + 1, target),
        forall|ti2: int|
            0 <= ti2 < ti + 1 ==> (has_event_row(v_after, ti2) <==> has_summary_row(
                v_after,
                ti2,
            )),
        forall|t2: int|
            ti + 1 <= t2 < block.transactions@.len() ==> !has_event_row(v_after, t2)
                && !has_summary_row(v_after, t2),
        forall|j1: int, j2: int|
            0 <= j1 < j2 < v_after.len() && (#[trigger] v_after[j1]).table
                == TableKind::Transactions && (#[trigger] v_after[j2]).table
                == TableKind::Transactions ==> v_after[j1].transaction_index
                != v_after[j2].transaction_index,
        forall|j: int|
            v_before.len() <= j < v_after.len() ==> (#[trigger] v_after[j]).transaction_index
                == Some(ti as u32),
{
    let srow = transactions_rowv(
        block.transactions@[ti].signature@,
        string_views(block.transactions@[ti].signers@),
        block.slot,
        ti as u32,
    );
    assert(srow.transaction_index == Some(ti as u32));
    assert(row_of_transaction(srow, block, ti, target));
    assert(emitted_row_ok(srow, block, ti + 1, target));
    assert forall|j: int| 0 <= j < v_after.len() implies emitted_row_ok(
        #[trigger] v_after[j],
        block,
        ti + 1,
        target,
    ) by {
        if j < v_mid.len() {
            assert(v_after[j] == v_mid[j]);
        } else {
            assert(v_after[j] == srow);
        }
    }
    // The new row is the only summary row of `ti`, and `ti` now has an
    // event row too; earlier transactions keep their pairing.
    assert forall|ti2: int| 0 <= ti2 < ti + 1 implies (has_event_row(v_after, ti2)
        <==> has_summary_row(v_after, ti2)) by {
        if ti2 == ti {
            assert(v_after[v_after.len() - 1] == srow);
            assert(has_summary_row(v_after, ti2));
            assert(v_mid[v_before.len() as int].transaction_index == Some(ti as u32));
            assert(v_after[v_before.len() as int] == v_mid[v_before.len() as int]);
            assert(has_event_row(v_after, ti2));
        } else {
            assert(has_event_row(v_before, ti2) <==> has_summary_row(v_before, ti2));
            if has_event_row(v_after, ti2) {
                let j = choose|j: int|
                    0 <= j < v_after.len() && is_event_table((#[trigger] v_after[j]).table)
                        && v_after[j].transaction_index == Some(ti2 as u32);
                assert(j < v_before.len()) by {
                    if j >= v_before.len() {
                        if j < v_mid.len() {
                            assert(v_after[j] == v_mid[j]);
                            assert(v_mid[j].transaction_index == Some(ti as u32));
                            assert(ti2 as u32 != ti as u32);
                        } else {
                            assert(v_after[j] == srow);
                        }
                    }
                }
                assert(v_before[j] == v_after[j]);
                assert(has_event_row(v_before, ti2));
                let j2 = choose|j2: int|
                    0 <= j2 < v_before.len() && (#[trigger] v_before[j2]).table
                        == TableKind::Transactions && v_before[j2].transaction_index == Some(
                        ti2 as u32,
                    );
                assert(v_after[j2] == v_before[j2]);
                assert(has_summary_row(v_after, ti2));
            }
            if has_summary_row(v_after, ti2) {
                let j = choose|j: int|
                    0 <= j < v_after.len() && (#[trigger] v_after[j]).table
                        == TableKind::Transactions && v_after[j].transaction_index == Some(
                        ti2 as u32,
                    );
                assert(j < v_before.len()) by {
                    if j >= v_before.len() {
                        if j < v_mid.len() {
                            assert(is_event_table(v_mid[j].table));
                        } else {
                            assert(v_after[j] == srow);
                            assert(ti2 as u32 != ti as u32);
                        }
                    }
                }
                assert(has_summary_row(v_before, ti2));
                let j2 = choose|j2: int|
                    0 <= j2 < v_before.len() && is_event_table((#[trigger] v_before[j2]).table)
                        && v_before[j2].transaction_index == Some(ti2 as u32);
                assert(v_after[j2] == v_before[j2]);
                assert(has_event_row(v_after, ti2));
            }
        }
    }
    assert forall|t2: int| ti + 1 <= t2 < block.transactions@.len() implies !has_event_row(
        v_after,
        t2,
    ) && !has_summary_row(v_after, t2) by {
        assert forall|j: int| 0 <= j < v_after.len() implies (
        #[trigger] v_after[j]).transaction_index != Some(t2 as u32) by {
            if j < v_before.len() {
                assert(!has_event_row(v_before, t2) && !has_summary_row(v_before, t2));
                if v_after[j].transaction_index == Some(t2 as u32) {
                    assert(emitted_row_ok(v_before[j], block, ti + 1, target));
                    let t0 = choose|t0: int|
                        0 <= t0 < ti + 1 && #[trigger] row_of_transaction(
                            v_before[j],
                            block,
                            t0,
                            target,
                        );
                    assert(v_before[j].transaction_index == Some(t0 as u32));
                    assert(t0 as u32 != t2 as u32);
                }
            } else if j < v_mid.len() {
                assert(v_after[j].transaction_index == Some(ti as u32));
                assert(ti as u32 != t2 as u32);
            } else {
                assert(v_after[j] == srow);
                assert(ti as u32 != t2 as u32);
            }
        }
    }
    assert forall|j1: int, j2: int|
        0 <= j1 < j2 < v_after.len() && (#[trigger] v_after[j1]).table == TableKind::Transactions
            && (#[trigger] v_after[j2]).table == TableKind::Transactions implies
        v_after[j1].transaction_index != v_after[j2].transaction_index by {
        if j2 == v_after.len() - 1 {
            assert(v_after[j2] == srow);
            if j1 < v_before.len() {
                assert(!has_summary_row(v_before, ti));
                if v_after[j1].transaction_index == Some(ti as u32) {
                    assert(has_summary_row(v_before, ti));
                }
            } else {
                assert(is_event_table(v_mid[j1].table));
            }
        } else {
            if j1 >= v_before.len() {
                assert(is_event_table(v_mid[j1].table));
            }
            if j2 >= v_before.len() {
                assert(is_event_table(v_mid[j2].table));
            }
        }
    }
}

/// Pushing a row that belongs to no transaction (the block summary row)
/// changes no per-transaction fact.
proof fn lemma_rows_push_non_tx(block: Block, v: Seq<RowV>, extra: RowV, ti: int)
    requires
        extra.transaction_index is None,
        0 <= ti,
    ensures
        has_event_row(v.push(extra), ti) <==> has_event_row(v, ti),
        has_summary_row(v.push(extra), ti) <==> has_summary_row(v, ti),
{
    let v2 = v.push(extra);
    if has_event_row(v2, ti) {
        let j = choose|j: int|
            0 <= j < v2.len() && is_event_table((#[trigger] v2[j]).table) && v2[j].transaction_index
                == Some(ti as u32);
        if j < v.len() {
            assert(has_event_row(v, ti));
        } else {
            assert(v2[j] == extra);
        }
    }
    if has_event_row(v, ti) {
        let j = choose|j: int|
            0 <= j < v.len() && is_event_table((#[trigger] v[j]).table) && v[j].transaction_index
                == Some(ti as u32);
        assert(v2[j] == v[j]);
        assert(has_event_row(v2, ti));
    }
    if has_summary_row(v2, ti) {
        let j = choose|j: int|
            0 <= j < v2.len() && (#[trigger] v2[j]).table == TableKind::Transactions
                && v2[j].transaction_index == Some(ti as u32);
        if j < v.len() {
            assert(has_summary_row(v, ti));
        } else {
            assert(v2[j] == extra);
        }
    }
    if has_summary_row(v, ti) {
        let j = choose|j: int|
            0 <= j < v.len() && (#[trigger] v[j]).table == TableKind::Transactions
                && v[j].transaction_index == Some(ti as u32);
        assert(v2[j] == v[j]);
        assert(has_summary_row(v2, ti));
    }
}

} // verus!

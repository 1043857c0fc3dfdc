//! The library's cross-function guarantees, stated once over the spec
//! functions that the executable contracts use.

use vstd::prelude::*;

use crate::events::FrensEvent;
use crate::indexer::{chain_root, lemma_top_is_chain_root, well_formed, IndexedInstruction};
use crate::model::Transaction;
use crate::rows::{ancestry_columns, event_rowv, row_view, Col, TableRow, ValueV};

verus! {

/// Global indices are contiguous, strictly increasing from zero, and equal
/// the positions in which `flattened` yields the nodes: the node at arena
/// position `i` carries index `i`.
pub proof fn lemma_indices_are_positions(tx: Transaction, nodes: Seq<IndexedInstruction>)
    requires
        well_formed(tx, nodes),
    ensures
        forall|i: int| 0 <= i < nodes.len() ==> (#[trigger] nodes[i]).index == i,
{
}

/// A node without a parent gets exactly the sentinel ancestry columns:
/// empty program ids and index -1, twice.
pub proof fn lemma_top_level_ancestry_sentinels(nodes: Seq<IndexedInstruction>, i: int)
    requires
        0 <= i < nodes.len(),
        nodes[i].parent_index is None,
    ensures
        ancestry_columns(nodes, i) == seq![
            (Col::ParentInstructionProgramId, ValueV::Text(Seq::<char>::empty())),
            (Col::ParentInstructionIndex, ValueV::I64(-1i64)),
            (Col::TopInstructionProgramId, ValueV::Text(Seq::<char>::empty())),
            (Col::TopInstructionIndex, ValueV::I64(-1i64)),
        ],
{
}

/// For a node with a parent, the top-ancestor link is the root of its
/// parent chain, and the last two ancestry columns name exactly that root:
/// its program address and its global index.
pub proof fn lemma_ancestry_names_chain_root(
    tx: Transaction,
    nodes: Seq<IndexedInstruction>,
    i: int,
)
    requires
        well_formed(tx, nodes),
        nodes.len() <= usize::MAX,
        0 <= i < nodes.len(),
        nodes[i].parent_index is Some,
    ensures
        nodes[i].top_index == chain_root(nodes, i),
        ancestry_columns(nodes, i)[2] == (
            Col::TopInstructionProgramId,
            ValueV::Text(nodes[chain_root(nodes, i)].instruction.program_id@),
        ),
        ancestry_columns(nodes, i)[3] == (
            Col::TopInstructionIndex,
            ValueV::I64(nodes[i].top_index as i64),
        ),
{
    lemma_top_is_chain_root(tx, nodes, i);
}

/// Determinism: each emitter's contract pins the produced row's view to a
/// function of its inputs alone, so any two rows produced from the same
/// event, arena, position and key are identical.
pub proof fn lemma_rows_deterministic(
    r1: TableRow,
    r2: TableRow,
    e: FrensEvent,
    nodes: Seq<IndexedInstruction>,
    i: int,
    slot: u64,
    transaction_index: u32,
)
    requires
        row_view(r1) == event_rowv(e, nodes, i, slot, transaction_index),
        row_view(r2) == event_rowv(e, nodes, i, slot, transaction_index),
    ensures
        row_view(r1) == row_view(r2),
{
}

} // verus!

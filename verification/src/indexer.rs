//! Reconstruction of a transaction's instruction call tree. The source hands
//! over a flat list of top-level instructions and, per top-level
//! instruction, a flat list of inner instructions each carrying a reported
//! invocation depth (stack height, top level = 1). The indexer merges both
//! into one arena of nodes in execution order, each node holding its global
//! index, a parent link (none for a top-level instruction) and a link to its
//! top-level ancestor.
//!
//! The depth rule: walking one top-level group, an entry's effective depth
//! is its reported height clamped to one more than the previous entry's
//! effective depth (any jump upward counts as opening a single level), and
//! its parent is the most recent earlier entry of the group whose effective
//! depth is exactly one less. A reported height below 2 would place an
//! inner instruction at or above the top level and is rejected as
//! structural corruption, as is a group naming a top-level position that
//! does not exist.

use vstd::prelude::*;

use crate::model::{instr_like, InnerInstruction, InnerInstructionGroup, Instruction, Transaction};

verus! {

/// One node of the reconstructed tree.
#[derive(Debug, PartialEq, Eq)]
pub struct IndexedInstruction {
    /// Global position in execution order; unique within the transaction.
    pub index: usize,
    /// The raw instruction this node stands for.
    pub instruction: Instruction,
    /// Arena position of the immediate parent; none for a top-level node.
    pub parent_index: Option<usize>,
    /// Arena position of the top-level ancestor; itself for a top-level node.
    pub top_index: usize,
}

impl IndexedInstruction {
    /// The owning program's address.
    pub fn program_id(&self) -> (r: &String)
        ensures
            r == &self.instruction.program_id,
    {
        &self.instruction.program_id
    }
}

/// The arena of indexed nodes, in execution order.
#[derive(Debug, PartialEq, Eq)]
pub struct IndexedInstructions {
    pub nodes: Vec<IndexedInstruction>,
}

/// Structural corruption found while rebuilding the tree.
#[derive(Debug, PartialEq, Eq)]
pub enum IndexError {
    /// An inner-instruction group names a top-level position that does not
    /// exist.
    GroupIndexOutOfRange,
    /// An inner instruction reports a depth below the first nesting level.
    DepthBelowTopLevel,
}

/// The inner instructions that belong to top-level position `t`:
/// concatenation, in source order, of the instruction lists of every group
/// naming `t`.
pub open spec fn group_inners(groups: Seq<InnerInstructionGroup>, t: int) -> Seq<InnerInstruction>
    decreases groups.len(),
{
    if groups.len() == 0 {
        Seq::empty()
    } else {
        group_inners(groups.drop_last(), t) + if groups.last().index as int == t {
            groups.last().instructions@
        } else {
            Seq::empty()
        }
    }
}

/// Nodes contributed by top-level position `t`: the top-level instruction
/// itself plus its inner instructions.
pub open spec fn segment_len(tx: Transaction, t: int) -> int {
    1 + group_inners(tx.inner_instruction_groups@, t).len() as int
}

/// Global index of the top-level node of position `t`.
pub open spec fn base_index(tx: Transaction, t: int) -> int
    decreases t,
{
    if t <= 0 {
        0
    } else {
        base_index(tx, t - 1) + segment_len(tx, t - 1)
    }
}

/// Total number of nodes of the transaction.
pub open spec fn total_instructions(tx: Transaction) -> int {
    base_index(tx, tx.instructions@.len() as int)
}

/// Every group names an existing top-level position.
pub open spec fn groups_ok(tx: Transaction) -> bool {
    forall|g: int|
        0 <= g < tx.inner_instruction_groups@.len() ==> (
        #[trigger] tx.inner_instruction_groups@[g]).index < tx.instructions@.len()
}

/// Every inner instruction reports a depth of at least 2.
pub open spec fn heights_ok(tx: Transaction) -> bool {
    forall|g: int, k: int|
        0 <= g < tx.inner_instruction_groups@.len() && 0 <= k
            < tx.inner_instruction_groups@[g].instructions@.len()
            ==> (#[trigger] tx.inner_instruction_groups@[g].instructions@[k]).stack_height >= 2
}

/// Effective depth of entry `k` of one group's inner list; entry -1 stands
/// for the top-level instruction at depth 1. A reported height may exceed
/// the previous effective depth by more than one; it still opens a single
/// level.
pub open spec fn eff_height(inners: Seq<InnerInstruction>, k: int) -> int
    decreases k + 1,
{
    if k < 0 {
        1
    } else {
        vstd::math::min(inners[k].stack_height as int, eff_height(inners, k - 1) + 1)
    }
}

/// The most recent entry at or before `k` whose effective depth is `e`;
/// -1 stands for the top-level instruction, -2 for none.
pub open spec fn last_at_depth(inners: Seq<InnerInstruction>, k: int, e: int) -> int
    decreases k + 2,
{
    if k < -1 {
        -2
    } else if k == -1 {
        if e == 1 {
            -1
        } else {
            -2
        }
    } else if eff_height(inners, k) == e {
        k
    } else {
        last_at_depth(inners, k - 1, e)
    }
}

/// Entry that is the parent of entry `k`: the most recent earlier entry one
/// effective level up (-1 when that is the top-level instruction).
pub open spec fn parent_entry(inners: Seq<InnerInstruction>, k: int) -> int {
    last_at_depth(inners, k - 1, eff_height(inners, k) - 1)
}

/// The node of inner entry `k` of the segment based at `b` carries the
/// entry's instruction, the segment's top node as ancestor, and the parent
/// given by the depth rule.
pub open spec fn inner_node_ok(
    nodes: Seq<IndexedInstruction>,
    b: int,
    inners: Seq<InnerInstruction>,
    k: int,
) -> bool {
    let g = b + 1 + k;
    let pe = parent_entry(inners, k);
    &&& pe >= -1
    &&& instr_like(nodes[g].instruction, inners[k].instruction)
    &&& nodes[g].top_index == b
    &&& nodes[g].parent_index == Some(
        (if pe == -1 {
            b
        } else {
            b + 1 + pe
        }) as usize,
    )
}

/// The whole segment of top-level position `t` is correctly indexed.
pub open spec fn segment_ok(tx: Transaction, nodes: Seq<IndexedInstruction>, t: int) -> bool {
    let b = base_index(tx, t);
    let inners = group_inners(tx.inner_instruction_groups@, t);
    &&& instr_like(nodes[b].instruction, tx.instructions@[t])
    &&& nodes[b].parent_index is None
    &&& nodes[b].top_index == b
    &&& forall|k: int| 0 <= k < inners.len() ==> #[trigger] inner_node_ok(nodes, b, inners, k)
}

/// The arena is exactly the execution-ordered, parent-annotated merge of the
/// transaction's instruction lists.
pub open spec fn well_formed(tx: Transaction, nodes: Seq<IndexedInstruction>) -> bool {
    &&& nodes.len() == total_instructions(tx)
    &&& forall|i: int| 0 <= i < nodes.len() ==> (#[trigger] nodes[i]).index == i
    &&& forall|t: int| 0 <= t < tx.instructions@.len() ==> #[trigger] segment_ok(tx, nodes, t)
}

/// Effective depths are decided by the entries up to the point looked at.
proof fn lemma_eff_prefix(a: Seq<InnerInstruction>, b: Seq<InnerInstruction>, k: int)
    requires
        forall|i: int| 0 <= i <= k ==> a[i] == b[i],
    ensures
        eff_height(a, k) == eff_height(b, k),
    decreases k + 1,
{
    if k >= 0 {
        lemma_eff_prefix(a, b, k - 1);
    }
}

/// So is the most recent entry at a given depth.
proof fn lemma_last_prefix(a: Seq<InnerInstruction>, b: Seq<InnerInstruction>, k: int, e: int)
    requires
        forall|i: int| 0 <= i <= k ==> a[i] == b[i],
    ensures
        last_at_depth(a, k, e) == last_at_depth(b, k, e),
    decreases k + 2,
{
    if k >= 0 {
        lemma_eff_prefix(a, b, k);
        lemma_last_prefix(a, b, k - 1, e);
    }
}

/// Segment bases never decrease.
proof fn lemma_base_mono(tx: Transaction, t1: int, t2: int)
    requires
        t1 <= t2,
    ensures
        base_index(tx, t1) <= base_index(tx, t2),
    decreases t2 - t1,
{
    if t1 < t2 {
        lemma_base_mono(tx, t1, t2 - 1);
        assert(group_inners(tx.inner_instruction_groups@, t2 - 1).len() >= 0);
    }
}

/// Every global index falls in the segment of exactly one top-level
/// position; returns that position.
proof fn lemma_locate(tx: Transaction, i: int, t: int) -> (res: int)
    requires
        0 <= t <= tx.instructions@.len(),
        base_index(tx, t) <= i < total_instructions(tx),
    ensures
        t <= res < tx.instructions@.len(),
        base_index(tx, res) <= i < base_index(tx, res + 1),
    decreases tx.instructions@.len() - t,
{
    assert(t < tx.instructions@.len()) by {
        if t == tx.instructions@.len() {
            assert(base_index(tx, t) == total_instructions(tx));
        }
    }
    if i < base_index(tx, t + 1) {
        t
    } else {
        lemma_locate(tx, i, t + 1)
    }
}

/// Root of the parent chain of node `i` (the chain is finite because every
/// parent sits strictly earlier in the arena).
pub open spec fn chain_root(nodes: Seq<IndexedInstruction>, i: int) -> int
    decreases i,
{
    match nodes[i].parent_index {
        Option::None => i,
        Option::Some(p) => if 0 <= p < i {
            chain_root(nodes, p as int)
        } else {
            i
        },
    }
}

/// Within the segment based at `b`, the parent of an inner node lies
/// strictly between `b - 1` and the node, and the chain from any inner node
/// runs down to the segment's top node.
proof fn lemma_segment_chain(
    tx: Transaction,
    nodes: Seq<IndexedInstruction>,
    t: int,
    k: int,
)
    requires
        0 <= t < tx.instructions@.len(),
        well_formed(tx, nodes),
        nodes.len() <= usize::MAX,
        0 <= k < group_inners(tx.inner_instruction_groups@, t).len(),
    ensures
        chain_root(nodes, base_index(tx, t) + 1 + k) == base_index(tx, t),
    decreases k,
{
    let b = base_index(tx, t);
    let inners = group_inners(tx.inner_instruction_groups@, t);
    assert(segment_ok(tx, nodes, t));
    assert(inner_node_ok(nodes, b, inners, k));
    let pe = parent_entry(inners, k);
    lemma_last_bounds(inners, k - 1, eff_height(inners, k) - 1);
    assert(b >= 0) by {
        lemma_base_mono(tx, 0, t);
    }
    assert(base_index(tx, t + 1) == b + segment_len(tx, t));
    assert(b + 1 + k < nodes.len()) by {
        lemma_base_mono(tx, t + 1, tx.instructions@.len() as int);
    }
    if pe == -1 {
        assert((b as usize) as int == b);
        assert(nodes[b + 1 + k].parent_index == Some(b as usize));
        assert(chain_root(nodes, b + 1 + k) == chain_root(nodes, b));
    } else {
        assert(((b + 1 + pe) as usize) as int == b + 1 + pe);
        assert(nodes[b + 1 + k].parent_index == Some((b + 1 + pe) as usize));
        assert(chain_root(nodes, b + 1 + k) == chain_root(nodes, b + 1 + pe));
        lemma_segment_chain(tx, nodes, t, pe);
    }
}

/// The most recent entry at a depth never lies beyond where the search
/// starts.
proof fn lemma_last_bounds(inners: Seq<InnerInstruction>, k: int, e: int)
    ensures
        last_at_depth(inners, k, e) >= -2,
        k >= -1 ==> last_at_depth(inners, k, e) <= k,
    decreases k + 2,
{
    if k >= 0 {
        lemma_last_bounds(inners, k - 1, e);
    }
}

/// The top-level ancestor link of every node is exactly the root of its
/// parent chain.
pub proof fn lemma_top_is_chain_root(tx: Transaction, nodes: Seq<IndexedInstruction>, i: int)
    requires
        well_formed(tx, nodes),
        nodes.len() <= usize::MAX,
        0 <= i < nodes.len(),
    ensures
        nodes[i].top_index == chain_root(nodes, i),
{
    let t = lemma_locate(tx, i, 0);
    let b = base_index(tx, t);
    assert(segment_ok(tx, nodes, t));
    assert(base_index(tx, t + 1) == b + segment_len(tx, t));
    if i == b {
        assert(chain_root(nodes, i) == i);
    } else {
        let k = i - b - 1;
        let inners = group_inners(tx.inner_instruction_groups@, t);
        assert(inner_node_ok(nodes, b, inners, k));
        lemma_segment_chain(tx, nodes, t, k);
    }
}

impl IndexedInstructions {
    /// The nodes in execution order; position equals global index.
    pub fn flattened(&self) -> (r: &Vec<IndexedInstruction>)
        ensures
            r == &self.nodes,
    {
        &self.nodes
    }

    /// The immediate parent of node `i`, or nothing for a top-level node.
    pub fn parent_instruction(&self, i: usize) -> (r: Option<&IndexedInstruction>)
        requires
            i < self.nodes@.len(),
            match self.nodes@[i as int].parent_index {
                Option::Some(p) => p < self.nodes@.len(),
                Option::None => true,
            },
        ensures
            self.nodes@[i as int].parent_index is None ==> r is None,
            self.nodes@[i as int].parent_index matches Option::Some(p) ==> (r matches Option::Some(
                node,
            ) && *node == self.nodes@[p as int]),
    {
        match self.nodes[i].parent_index {
            Option::Some(p) => Some(&self.nodes[p]),
            Option::None => None,
        }
    }

    /// The top-level ancestor of node `i`, or nothing for a top-level node
    /// (which is its own ancestor).
    pub fn top_instruction(&self, i: usize) -> (r: Option<&IndexedInstruction>)
        requires
            i < self.nodes@.len(),
            self.nodes@[i as int].top_index < self.nodes@.len(),
        ensures
            self.nodes@[i as int].parent_index is None ==> r is None,
            self.nodes@[i as int].parent_index is Some ==> (r matches Option::Some(node) && *node
                == self.nodes@[self.nodes@[i as int].top_index as int]),
    {
        match self.nodes[i].parent_index {
            Option::Some(_) => Some(&self.nodes[self.nodes[i].top_index]),
            Option::None => None,
        }
    }
}

/// Links never point outside the arena: a parent lies strictly before its
/// child, shares its top-level ancestor, and the ancestor link never points
/// past the node itself; a node without parent is its own ancestor.
pub proof fn lemma_links_in_bounds(tx: Transaction, nodes: Seq<IndexedInstruction>, i: int)
    requires
        well_formed(tx, nodes),
        nodes.len() <= usize::MAX,
        0 <= i < nodes.len(),
    ensures
        nodes[i].top_index <= i,
        nodes[i].parent_index is None ==> nodes[i].top_index == i,
        nodes[i].parent_index matches Option::Some(p) ==> p < i && nodes[p as int].top_index
            == nodes[i].top_index && nodes[i].top_index < i,
{
    let t = lemma_locate(tx, i, 0);
    let b = base_index(tx, t);
    assert(segment_ok(tx, nodes, t));
    assert(base_index(tx, t + 1) == b + segment_len(tx, t));
    assert(b >= 0) by {
        lemma_base_mono(tx, 0, t);
    }
    if i > b {
        let k = i - b - 1;
        let inners = group_inners(tx.inner_instruction_groups@, t);
        assert(inner_node_ok(nodes, b, inners, k));
        let pe = parent_entry(inners, k);
        lemma_last_bounds(inners, k - 1, eff_height(inners, k) - 1);
        if pe >= 0 {
            assert(inner_node_ok(nodes, b, inners, pe));
        }
    }
}

/// Rebuilds the call tree of a transaction: on success the arena is the
/// execution-ordered merge of the top-level and inner instruction lists,
/// parent-annotated by the depth rule; structural corruption is reported
/// instead, naming the kind found.
pub fn get_indexed_instructions(transaction: &Transaction) -> (r: Result<
    IndexedInstructions,
    IndexError,
>)
    ensures
        match r {
            Result::Ok(ix) => groups_ok(*transaction) && heights_ok(*transaction) && well_formed(
                *transaction,
                ix.nodes@,
            ),
            Result::Err(e) => !(groups_ok(*transaction) && heights_ok(*transaction)) && (e
                == IndexError::GroupIndexOutOfRange <==> !groups_ok(*transaction)),
        },
{
    let ntop = transaction.instructions.len();
    let ng = transaction.inner_instruction_groups.len();
    let mut g: usize = 0;
    while g < ng
        invariant
            0 <= g <= ng,
            ng == transaction.inner_instruction_groups@.len(),
            ntop == transaction.instructions@.len(),
            forall|g2: int|
                0 <= g2 < g ==> (#[trigger] transaction.inner_instruction_groups@[g2]).index
                    < ntop,
        decreases ng - g,
    {
        if transaction.inner_instruction_groups[g].index as usize >= ntop {
            assert(!groups_ok(*transaction));
            return Err(IndexError::GroupIndexOutOfRange);
        }
        g += 1;
    }
    assert(groups_ok(*transaction));
    let mut g2: usize = 0;
    while g2 < ng
        invariant
            0 <= g2 <= ng,
            ng == transaction.inner_instruction_groups@.len(),
            groups_ok(*transaction),
            forall|ga: int, k: int|
                0 <= ga < g2 && 0 <= k
                    < transaction.inner_instruction_groups@[ga].instructions@.len() ==> (
                #[trigger] transaction.inner_instruction_groups@[ga].instructions@[k]).stack_height
                    >= 2,
        decreases ng - g2,
    {
        let m = transaction.inner_instruction_groups[g2].instructions.len();
        let mut k: usize = 0;
        while k < m
            invariant
                0 <= k <= m,
                0 <= g2 < ng,
                ng == transaction.inner_instruction_groups@.len(),
                m == transaction.inner_instruction_groups@[g2 as int].instructions@.len(),
                groups_ok(*transaction),
                forall|ga: int, k2: int|
                    0 <= ga < g2 && 0 <= k2
                        < transaction.inner_instruction_groups@[ga].instructions@.len() ==> (
                    #[trigger] transaction.inner_instruction_groups@[ga].instructions@[k2]).stack_height
                        >= 2,
                forall|k2: int|
                    0 <= k2 < k ==> (
                    #[trigger] transaction.inner_instruction_groups@[g2 as int].instructions@[k2]).stack_height
                        >= 2,
            decreases m - k,
        {
            if transaction.inner_instruction_groups[g2].instructions[k].stack_height < 2 {
                assert(!heights_ok(*transaction));
                return Err(IndexError::DepthBelowTopLevel);
            }
            k += 1;
        }
        g2 += 1;
    }
    assert(heights_ok(*transaction));

    let tx = transaction;
    let groups = &tx.inner_instruction_groups;
    let mut nodes: Vec<IndexedInstruction> = Vec::new();
    let mut t: usize = 0;
    while t < ntop
        invariant
            0 <= t <= ntop,
            ntop == tx.instructions@.len(),
            ng == tx.inner_instruction_groups@.len(),
            groups == &tx.inner_instruction_groups,
            groups_ok(*tx),
            heights_ok(*tx),
            nodes@.len() == base_index(*tx, t as int),
            forall|i: int| 0 <= i < nodes@.len() ==> (#[trigger] nodes@[i]).index == i,
            forall|t2: int| 0 <= t2 < t ==> #[trigger] segment_ok(*tx, nodes@, t2),
        decreases ntop - t,
    {
        let bt = nodes.len();
        let ghost nodes_before = nodes@;
        nodes.push(
            IndexedInstruction {
                index: bt,
                instruction: tx.instructions[t].clone(),
                parent_index: None,
                top_index: bt,
            },
        );
        let mut stack: Vec<usize> = Vec::new();
        stack.push(bt);
        let ghost mut done: Seq<InnerInstruction> = Seq::empty();
        proof {
            assert forall|t2: int| 0 <= t2 < t as int implies #[trigger] segment_ok(
                *tx,
                nodes@,
                t2,
            ) by {
                lemma_base_mono(*tx, t2 + 1, t as int);
                lemma_segment_ok_extend(*tx, nodes_before, nodes@, t2);
            }
            assert(eff_height(done, done.len() - 1) == 1);
            assert(last_at_depth(done, done.len() - 1, 1) == -1);
            assert(build_state_ok(*tx, nodes@, stack@, done, t as int));
        }
        let mut gi: usize = 0;
        while gi < ng
            invariant
                0 <= gi <= ng,
                ntop == tx.instructions@.len(),
                ng == tx.inner_instruction_groups@.len(),
                groups == &tx.inner_instruction_groups,
                groups_ok(*tx),
                heights_ok(*tx),
                0 <= t < ntop,
                bt == base_index(*tx, t as int),
                done == group_inners(tx.inner_instruction_groups@.subrange(0, gi as int), t as int),
                build_state_ok(*tx, nodes@, stack@, done, t as int),
            decreases ng - gi,
        {
            let ghost done_at_group = done;
            if groups[gi].index as usize == t {
                let m = groups[gi].instructions.len();
                let mut k2: usize = 0;
                while k2 < m
                    invariant
                        0 <= k2 <= m,
                        0 <= gi < ng,
                        ntop == tx.instructions@.len(),
                        ng == tx.inner_instruction_groups@.len(),
                        groups == &tx.inner_instruction_groups,
                        m == tx.inner_instruction_groups@[gi as int].instructions@.len(),
                        tx.inner_instruction_groups@[gi as int].index as int == t as int,
                        groups_ok(*tx),
                        heights_ok(*tx),
                        0 <= t < ntop,
                        bt == base_index(*tx, t as int),
                        done_at_group == group_inners(
                            tx.inner_instruction_groups@.subrange(0, gi as int),
                            t as int,
                        ),
                        done == done_at_group + tx.inner_instruction_groups@[gi as int].instructions@.subrange(
                            0,
                            k2 as int,
                        ),
                        build_state_ok(*tx, nodes@, stack@, done, t as int),
                    decreases m - k2,
                {
                    let ii = &groups[gi].instructions[k2];
                    assert(ii.stack_height >= 2);
                    let h = ii.stack_height as usize;
                    let sl = stack.len();
                    let ghost done2 = done.push(*ii);
                    let ghost ke = done.len() as int;
                    let ghost b = bt as int;
                    proof {
                        lemma_eff_at_least_one(done, ke - 1);
                    }
                    let eff: usize = if h <= sl {
                        h
                    } else {
                        sl + 1
                    };
                    proof {
                        lemma_eff_prefix(done2, done, ke - 1);
                        assert(done2[ke] == *ii);
                        assert(eff_height(done2, ke) == eff as int);
                        lemma_last_prefix(done2, done, ke - 1, eff as int - 1);
                        assert(parent_entry(done2, ke) == last_at_depth(
                            done,
                            ke - 1,
                            eff as int - 1,
                        ));
                    }
                    let ghost stack_old = stack@;
                    stack.truncate(eff - 1);
                    let parent = stack[eff - 2];
                    let n2 = nodes.len();
                    let ghost nodes_pre = nodes@;
                    nodes.push(
                        IndexedInstruction {
                            index: n2,
                            instruction: ii.instruction.clone(),
                            parent_index: Some(parent),
                            top_index: bt,
                        },
                    );
                    stack.push(n2);
                    proof {
                        assert(tx.inner_instruction_groups@[gi as int].instructions@.subrange(
                            0,
                            k2 as int + 1,
                        ) =~= tx.inner_instruction_groups@[gi as int].instructions@.subrange(
                            0,
                            k2 as int,
                        ).push(*ii));
                        // Indices stay positional.
                        assert forall|i2: int| 0 <= i2 < nodes@.len() implies (
                        #[trigger] nodes@[i2]).index == i2 by {
                            if i2 < nodes_pre.len() {
                                assert(nodes@[i2] == nodes_pre[i2]);
                            }
                        }
                        // Finished segments are untouched.
                        assert forall|t2: int| 0 <= t2 < t as int implies #[trigger] segment_ok(
                            *tx,
                            nodes@,
                            t2,
                        ) by {
                            lemma_base_mono(*tx, t2 + 1, t as int);
                            lemma_segment_ok_extend(*tx, nodes_pre, nodes@, t2);
                        }
                        assert(nodes@[b] == nodes_pre[b]);
                        // Earlier entries of this segment keep their parent rule:
                        // the depth bookkeeping only looks at a prefix.
                        assert forall|k: int| 0 <= k < ke implies #[trigger] inner_node_ok(
                            nodes@,
                            b,
                            done2,
                            k,
                        ) by {
                            assert(inner_node_ok(nodes_pre, b, done, k));
                            lemma_eff_prefix(done2, done, k);
                            lemma_last_prefix(done2, done, k - 1, eff_height(done, k) - 1);
                            assert(nodes@[b + 1 + k] == nodes_pre[b + 1 + k]);
                        }
                        // The new node's parent is the stack slot one level up,
                        // which the invariant pins to the most recent entry there.
                        let e = last_at_depth(done, ke - 1, eff as int - 1);
                        assert(e >= -1 && stack_old[eff as int - 2] as int == (if e == -1 {
                            b
                        } else {
                            b + 1 + e
                        }));
                        assert(parent as int == stack_old[eff as int - 2] as int);
                        assert(inner_node_ok(nodes@, b, done2, ke));
                        // The stack again lists, per open depth, its latest entry.
                        assert forall|d: int| 1 <= d <= stack@.len() implies {
                            let e2 = #[trigger] last_at_depth(done2, done2.len() - 1, d);
                            &&& e2 >= -1
                            &&& stack@[d - 1] as int == (if e2 == -1 {
                                b
                            } else {
                                b + 1 + e2
                            })
                        } by {
                            if d == eff as int {
                                assert(last_at_depth(done2, ke, d) == ke);
                                assert(stack@[d - 1] == n2);
                            } else {
                                assert(last_at_depth(done2, ke, d) == last_at_depth(
                                    done2,
                                    ke - 1,
                                    d,
                                ));
                                lemma_last_prefix(done2, done, ke - 1, d);
                                assert(stack@[d - 1] == stack_old[d - 1]);
                            }
                        }
                        done = done2;
                        assert(build_state_ok(*tx, nodes@, stack@, done, t as int));
                    }
                    k2 += 1;
                }
                proof {
                    assert(done == group_inners(
                        tx.inner_instruction_groups@.subrange(0, gi as int + 1),
                        t as int,
                    )) by {
                        let pre = tx.inner_instruction_groups@.subrange(0, gi as int + 1);
                        assert(pre.drop_last() =~= tx.inner_instruction_groups@.subrange(
                            0,
                            gi as int,
                        ));
                        assert(pre.last() == tx.inner_instruction_groups@[gi as int]);
                        assert(tx.inner_instruction_groups@[gi as int].instructions@.subrange(
                            0,
                            m as int,
                        ) =~= tx.inner_instruction_groups@[gi as int].instructions@);
                    }
                }
            } else {
                proof {
                    let pre = tx.inner_instruction_groups@.subrange(0, gi as int + 1);
                    assert(pre.drop_last() =~= tx.inner_instruction_groups@.subrange(0, gi as int));
                    assert(pre.last() == tx.inner_instruction_groups@[gi as int]);
                    assert(done == group_inners(pre, t as int));
                }
            }
            gi += 1;
        }
        proof {
            assert(tx.inner_instruction_groups@.subrange(0, ng as int)
                =~= tx.inner_instruction_groups@);
            assert(done == group_inners(tx.inner_instruction_groups@, t as int));
            assert(segment_ok(*tx, nodes@, t as int));
            assert(base_index(*tx, t as int + 1) == base_index(*tx, t as int) + segment_len(
                *tx,
                t as int,
            ));
        }
        t += 1;
    }
    assert(nodes@.len() == total_instructions(*tx));
    Ok(IndexedInstructions { nodes })
}

/// Invariant of the builder inside one segment: the arena holds every
/// finished segment plus the processed prefix of the current one, and the
/// stack holds, for each open depth, the most recent entry at that depth.
pub open spec fn build_state_ok(
    tx: Transaction,
    nodes: Seq<IndexedInstruction>,
    stack: Seq<usize>,
    done: Seq<InnerInstruction>,
    t: int,
) -> bool {
    let b = base_index(tx, t);
    &&& nodes.len() == b + 1 + done.len()
    &&& forall|i: int| 0 <= i < nodes.len() ==> (#[trigger] nodes[i]).index == i
    &&& forall|t2: int| 0 <= t2 < t ==> #[trigger] segment_ok(tx, nodes, t2)
    &&& instr_like(nodes[b].instruction, tx.instructions@[t])
    &&& nodes[b].parent_index is None
    &&& nodes[b].top_index == b
    &&& forall|k: int| 0 <= k < done.len() ==> (#[trigger] done[k]).stack_height >= 2
    &&& forall|k: int| 0 <= k < done.len() ==> #[trigger] inner_node_ok(nodes, b, done, k)
    &&& stack.len() as int == eff_height(done, done.len() - 1)
    &&& forall|d: int|
        1 <= d <= stack.len() ==> {
            let e = #[trigger] last_at_depth(done, done.len() - 1, d);
            &&& e >= -1
            &&& stack[d - 1] as int == (if e == -1 {
                b
            } else {
                b + 1 + e
            })
        }
}

/// A finished segment stays correct when the arena grows at the end.
proof fn lemma_segment_ok_extend(
    tx: Transaction,
    a: Seq<IndexedInstruction>,
    b2: Seq<IndexedInstruction>,
    t2: int,
)
    requires
        0 <= t2 < tx.instructions@.len(),
        segment_ok(tx, a, t2),
        base_index(tx, t2 + 1) <= a.len(),
        a.len() <= b2.len(),
        forall|i: int| 0 <= i < a.len() ==> a[i] == b2[i],
    ensures
        segment_ok(tx, b2, t2),
{
    lemma_base_mono(tx, 0, t2);
    let base = base_index(tx, t2);
    let inners = group_inners(tx.inner_instruction_groups@, t2);
    assert(base_index(tx, t2 + 1) == base + 1 + inners.len());
    assert(b2[base] == a[base]);
    assert forall|k: int| 0 <= k < inners.len() implies #[trigger] inner_node_ok(
        b2,
        base,
        inners,
        k,
    ) by {
        assert(inner_node_ok(a, base, inners, k));
        assert(b2[base + 1 + k] == a[base + 1 + k]);
    }
}

/// With every reported depth at least 2, the effective depth never drops
/// below the top level.
proof fn lemma_eff_at_least_one(inners: Seq<InnerInstruction>, k: int)
    requires
        forall|i: int| 0 <= i < inners.len() ==> (#[trigger] inners[i]).stack_height >= 2,
        k < inners.len(),
    ensures
        eff_height(inners, k) >= 1,
        k >= 0 ==> eff_height(inners, k) >= 2,
    decreases k + 1,
{
    if k >= 0 {
        lemma_eff_at_least_one(inners, k - 1);
    }
}

} // verus!

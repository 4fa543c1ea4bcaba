//! The mathematical model of an arena of shared scalars and shared list nodes.
//!
//! Scalars and nodes live in numbered slots. A slot carries the number of its owners:
//! the handles that callers hold, and the nodes of the arena that refer to it. A slot
//! without owners is evicted. A node refers to its scalar and to its tail by their slot
//! numbers, and its tail has a smaller number than the node itself, so that following
//! tails ends.

use crate::access_cell::CellModel;
use crate::text::decimal;
use vstd::prelude::*;

verus! {

/// What a list node holds.
#[derive(Clone, Copy, Debug, PartialEq, Eq, Structural)]
pub enum Link {
    /// The end of a list.
    Nil,
    /// A scalar, by its slot, before the list of the node in slot `tail`.
    Cons { value: usize, tail: usize },
}

/// A slot of a scalar.
pub ghost struct ScalarModel {
    /// The scalar, in its access cell.
    pub cell: CellModel<i32>,
    /// The number of owners of the slot; none for an evicted slot.
    pub owners: nat,
}

/// A slot of a list node.
pub ghost struct NodeModel {
    /// What the node holds; `Nil` in an evicted slot.
    pub link: Link,
    /// The number of owners of the slot; none for an evicted slot.
    pub owners: nat,
}

/// Whether a node with link `link` refers to slot `slot`: as its tail where `as_tail`
/// holds, as its scalar where not.
pub open spec fn refers(link: Link, as_tail: bool, slot: int) -> bool {
    match link {
        Link::Nil => false,
        Link::Cons { value, tail } => if as_tail {
            tail == slot
        } else {
            value == slot
        },
    }
}

/// 1 where a node with link `link` refers to slot `slot`, else 0.
pub open spec fn refers_count(link: Link, as_tail: bool, slot: int) -> nat {
    if refers(link, as_tail, slot) {
        1
    } else {
        0
    }
}

/// The number of nodes that refer to slot `slot`: as their tail where `as_tail` holds,
/// as their scalar where not.
pub open spec fn uses(nodes: Seq<NodeModel>, as_tail: bool, slot: int) -> nat
    decreases nodes.len(),
{
    if nodes.len() == 0 {
        0
    } else {
        uses(nodes.drop_last(), as_tail, slot) + refers_count(nodes.last().link, as_tail, slot)
    }
}

/// The slots of the scalars of the list that starts at node `i`, first to last.
pub open spec fn chain(nodes: Seq<NodeModel>, i: int) -> Seq<int>
    decreases i,
{
    if 0 <= i < nodes.len() {
        match nodes[i].link {
            Link::Nil => seq![],
            Link::Cons { value, tail } => if tail < i {
                seq![value as int] + chain(nodes, tail as int)
            } else {
                seq![value as int]
            },
        }
    } else {
        seq![]
    }
}

/// An arena: its scalar slots and its node slots.
pub ghost struct ArenaModel {
    pub scalars: Seq<ScalarModel>,
    pub nodes: Seq<NodeModel>,
}

impl ArenaModel {
    /// The arena without any slot.
    pub open spec fn empty() -> ArenaModel {
        ArenaModel { scalars: seq![], nodes: seq![] }
    }

    /// Slot `v` holds a scalar that has not been evicted.
    pub open spec fn scalar_live(self, v: int) -> bool {
        0 <= v < self.scalars.len() && self.scalars[v].owners > 0
    }

    /// Slot `i` holds a node that has not been evicted.
    pub open spec fn node_live(self, i: int) -> bool {
        0 <= i < self.nodes.len() && self.nodes[i].owners > 0
    }

    /// The number of handles to the scalar in slot `v` that are held outside the arena:
    /// the owners of the slot that are not nodes.
    pub open spec fn scalar_handles(self, v: int) -> int {
        self.scalars[v].owners - uses(self.nodes, false, v)
    }

    /// The number of handles to the node in slot `i` that are held outside the arena:
    /// the owners of the slot that are not nodes.
    pub open spec fn node_handles(self, i: int) -> int {
        self.nodes[i].owners - uses(self.nodes, true, i)
    }

    /// A handle to the scalar in slot `v` is held outside the arena.
    pub open spec fn scalar_held(self, v: int) -> bool {
        0 <= v < self.scalars.len() && self.scalar_handles(v) > 0
    }

    /// A handle to the node in slot `i` is held outside the arena.
    pub open spec fn node_held(self, i: int) -> bool {
        0 <= i < self.nodes.len() && self.node_handles(i) > 0
    }

    /// The arena is consistent: evicted nodes refer to nothing; every other node refers
    /// to a scalar and to an earlier node that have not been evicted; and no slot has
    /// fewer owners than nodes that refer to it.
    pub open spec fn wf(self) -> bool {
        &&& forall|i: int|
            0 <= i < self.nodes.len() && self.nodes[i].owners == 0 ==> (
            #[trigger] self.nodes[i]).link == Link::Nil
        &&& forall|i: int|
            0 <= i < self.nodes.len() ==> match (#[trigger] self.nodes[i]).link {
                Link::Nil => true,
                Link::Cons { value, tail } => self.scalar_live(value as int) && tail < i
                    && self.node_live(tail as int),
            }
        &&& forall|v: int| 0 <= v < self.scalars.len() ==> #[trigger] self.scalar_handles(v) >= 0
        &&& forall|t: int| 0 <= t < self.nodes.len() ==> #[trigger] self.node_handles(t) >= 0
    }

    /// The values of the list that starts at node `i`, first to last, as they are now.
    pub open spec fn contents(self, i: int) -> Seq<i32> {
        chain(self.nodes, i).map_values(|v: int| self.scalars[v].cell.value)
    }

    /// The cells of the list that starts at node `i`, first to last, as they are now.
    pub open spec fn cells(self, i: int) -> Seq<CellModel<i32>> {
        chain(self.nodes, i).map_values(|v: int| self.scalars[v].cell)
    }

    /// The arena with one more scalar slot, which holds `value` and has one owner.
    pub open spec fn with_scalar(self, value: i32) -> ArenaModel {
        ArenaModel {
            scalars: self.scalars.push(
                ScalarModel { cell: CellModel { value, readers: 0, writers: 0 }, owners: 1 },
            ),
            ..self
        }
    }

    /// The arena with one more node slot, which holds `link` and has one owner.
    pub open spec fn with_node(self, link: Link) -> ArenaModel {
        ArenaModel { nodes: self.nodes.push(NodeModel { link, owners: 1 }), ..self }
    }

    /// The arena with `cell` in scalar slot `v`.
    pub open spec fn with_cell(self, v: int, cell: CellModel<i32>) -> ArenaModel
        recommends
            0 <= v < self.scalars.len(),
    {
        ArenaModel {
            scalars: self.scalars.update(v, ScalarModel { cell, ..self.scalars[v] }),
            ..self
        }
    }

    /// The arena with `owners` owners of scalar slot `v`.
    pub open spec fn with_scalar_owners(self, v: int, owners: nat) -> ArenaModel
        recommends
            0 <= v < self.scalars.len(),
    {
        ArenaModel {
            scalars: self.scalars.update(v, ScalarModel { owners, ..self.scalars[v] }),
            ..self
        }
    }

    /// The arena with `owners` owners of node slot `i`.
    pub open spec fn with_node_owners(self, i: int, owners: nat) -> ArenaModel
        recommends
            0 <= i < self.nodes.len(),
    {
        ArenaModel {
            nodes: self.nodes.update(i, NodeModel { owners, ..self.nodes[i] }),
            ..self
        }
    }

    /// The arena with one owner more of scalar slot `v`.
    pub open spec fn share_scalar(self, v: int) -> ArenaModel
        recommends
            0 <= v < self.scalars.len(),
    {
        self.with_scalar_owners(v, self.scalars[v].owners + 1)
    }

    /// The arena with one owner fewer of scalar slot `v`. With its last owner the slot
    /// is evicted.
    pub open spec fn release_scalar(self, v: int) -> ArenaModel
        recommends
            self.scalar_live(v),
    {
        self.with_scalar_owners(v, (self.scalars[v].owners - 1) as nat)
    }

    /// The arena with one owner more of node slot `i`.
    pub open spec fn share_list(self, i: int) -> ArenaModel
        recommends
            0 <= i < self.nodes.len(),
    {
        self.with_node_owners(i, self.nodes[i].owners + 1)
    }

    /// The arena with node slot `i` evicted.
    pub open spec fn evict_node(self, i: int) -> ArenaModel
        recommends
            0 <= i < self.nodes.len(),
    {
        ArenaModel {
            nodes: self.nodes.update(i, NodeModel { link: Link::Nil, owners: 0 }),
            ..self
        }
    }

    /// What becomes of the arena when owners are given up and nothing else happens: no
    /// slot is added, no cell changes, no slot gains an owner, and a node that is still
    /// there holds what it held.
    pub open spec fn shrinks_to(self, after: ArenaModel) -> bool {
        &&& after.scalars.len() == self.scalars.len()
        &&& after.nodes.len() == self.nodes.len()
        &&& forall|v: int|
            0 <= v < self.scalars.len() ==> (#[trigger] after.scalars[v]).cell
                == self.scalars[v].cell && after.scalars[v].owners <= self.scalars[v].owners
        &&& forall|i: int|
            0 <= i < self.nodes.len() ==> (#[trigger] after.nodes[i]).owners
                <= self.nodes[i].owners && (after.nodes[i].owners > 0 ==> after.nodes[i].link
                == self.nodes[i].link)
    }

    /// The arena with one owner fewer of node slot `i`. With its last owner the slot is
    /// evicted, and what the node owned, its scalar and its tail, loses one owner each,
    /// and so on down the list.
    pub open spec fn release_list(self, i: int) -> ArenaModel
        decreases i,
    {
        if 0 <= i < self.nodes.len() {
            if self.nodes[i].owners != 1 {
                self.with_node_owners(i, (self.nodes[i].owners - 1) as nat)
            } else {
                match self.nodes[i].link {
                    Link::Nil => self.evict_node(i),
                    Link::Cons { value, tail } => {
                        let rest = self.evict_node(i).release_scalar(value as int);
                        if tail < i {
                            rest.release_list(tail as int)
                        } else {
                            rest
                        }
                    },
                }
            }
        } else {
            self
        }
    }
}

/// How a cell is shown: its value in decimal notation, or a placeholder while the
/// write ticket is outstanding.
pub open spec fn render_cell(cell: CellModel<i32>) -> Seq<char> {
    "RefCell { value: "@ + if cell.writers > 0 {
        "<borrowed>"@
    } else {
        decimal(cell.value as int)
    } + " }"@
}

/// How a list of cells is shown: each cell before the rest of the list, in brackets.
pub open spec fn render_cells(cells: Seq<CellModel<i32>>) -> Seq<char>
    decreases cells.len(),
{
    if cells.len() == 0 {
        "Nil"@
    } else {
        "Cons("@ + render_cell(cells[0]) + ", "@ + render_cells(cells.drop_first()) + ")"@
    }
}

} // verus!

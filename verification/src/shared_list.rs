//! Lists that share their scalars and their tails, kept in an arena.
//!
//! A handle stands for one owner of a slot of the arena. A scalar sits in an access
//! cell, so that it can be changed in place; every list that holds it shows the change.

use crate::access_cell::AccessCell;
use crate::list_laws::{
    lemma_evict_node, lemma_list_of_cons, lemma_release_list, lemma_release_scalar,
    lemma_share_list, lemma_share_scalar, lemma_with_cell, lemma_with_node, lemma_with_scalar,
};
use crate::list_model::{render_cell, render_cells, ArenaModel, Link, NodeModel, ScalarModel};
use crate::text::push_decimal;
use vstd::prelude::*;
use vstd::string::StringExecFns;

verus! {

/// A handle to a shared scalar: one of its owners.
pub struct SharedValue {
    index: usize,
}

/// A handle to a shared list: one of the owners of its first node.
pub struct SharedList {
    index: usize,
}

impl View for SharedValue {
    type V = int;

    /// The slot of the scalar.
    closed spec fn view(&self) -> int {
        self.index as int
    }
}

impl View for SharedList {
    type V = int;

    /// The slot of the first node.
    closed spec fn view(&self) -> int {
        self.index as int
    }
}

struct ScalarSlot {
    cell: AccessCell<i32>,
    owners: usize,
}

struct NodeSlot {
    link: Link,
    owners: usize,
}

/// The arena that holds the scalars and the nodes of the lists.
pub struct Arena {
    scalars: Vec<ScalarSlot>,
    nodes: Vec<NodeSlot>,
}

impl View for Arena {
    type V = ArenaModel;

    closed spec fn view(&self) -> ArenaModel {
        ArenaModel {
            scalars: self.scalars@.map_values(
                |slot: ScalarSlot| ScalarModel { cell: slot.cell@, owners: slot.owners as nat },
            ),
            nodes: self.nodes@.map_values(
                |slot: NodeSlot| NodeModel { link: slot.link, owners: slot.owners as nat },
            ),
        }
    }
}

impl Arena {
    /// An arena without any slot.
    pub fn new() -> (arena: Arena)
        ensures
            arena@ == ArenaModel::empty(),
            arena@.wf(),
    {
        let arena = Arena { scalars: Vec::new(), nodes: Vec::new() };
        assert(arena@.scalars =~= ArenaModel::empty().scalars);
        assert(arena@.nodes =~= ArenaModel::empty().nodes);
        arena
    }

    /// Puts `value` into a new slot and hands out the one handle to it.
    pub fn new_value(&mut self, value: i32) -> (handle: SharedValue)
        requires
            old(self)@.wf(),
        ensures
            handle@ == old(self)@.scalars.len(),
            final(self)@ == old(self)@.with_scalar(value),
            final(self)@.wf(),
    {
        let index: usize = self.scalars.len();
        self.scalars.push(ScalarSlot { cell: AccessCell::new(value), owners: 1 });
        proof {
            assert(self@.scalars =~= old(self)@.with_scalar(value).scalars);
            assert(self@.nodes =~= old(self)@.nodes);
            lemma_with_scalar(old(self)@, value);
        }
        SharedValue { index }
    }

    /// The number of owners of a scalar.
    pub fn value_owners(&self, handle: &SharedValue) -> (owners: usize)
        requires
            0 <= handle@ < self@.scalars.len(),
        ensures
            owners == self@.scalars[handle@].owners,
    {
        self.scalars[handle.index].owners
    }

    /// A further handle to the same scalar.
    pub fn clone_value(&mut self, handle: &SharedValue) -> (twin: SharedValue)
        requires
            old(self)@.wf(),
            old(self)@.scalar_live(handle@),
            old(self)@.scalars[handle@].owners < usize::MAX,
        ensures
            twin@ == handle@,
            final(self)@ == old(self)@.share_scalar(handle@),
            final(self)@.wf(),
    {
        let index: usize = handle.index;
        let owners: usize = self.scalars[index].owners;
        self.scalars[index].owners = owners + 1;
        proof {
            assert(self@.scalars =~= old(self)@.share_scalar(handle@).scalars);
            assert(self@.nodes =~= old(self)@.nodes);
            lemma_share_scalar(old(self)@, handle@);
        }
        SharedValue { index }
    }

    /// Gives up a handle to a scalar. With its last owner the scalar is evicted.
    pub fn release_value(&mut self, handle: SharedValue)
        requires
            old(self)@.wf(),
            old(self)@.scalar_held(handle@),
        ensures
            final(self)@ == old(self)@.release_scalar(handle@),
            final(self)@.wf(),
    {
        let index: usize = handle.index;
        let owners: usize = self.scalars[index].owners;
        self.scalars[index].owners = owners - 1;
        proof {
            assert(self@.scalars =~= old(self)@.release_scalar(handle@).scalars);
            assert(self@.nodes =~= old(self)@.nodes);
            lemma_release_scalar(old(self)@, handle@);
        }
    }

    /// The cell of a scalar, to look at.
    pub fn cell(&self, handle: &SharedValue) -> (cell: &AccessCell<i32>)
        requires
            0 <= handle@ < self@.scalars.len(),
        ensures
            cell@ == self@.scalars[handle@].cell,
    {
        &self.scalars[handle.index].cell
    }

    /// The cell of a scalar, to ask for access to it and to change it. The arena keeps
    /// what the caller leaves there.
    pub fn cell_mut(&mut self, handle: &SharedValue) -> (cell: &mut AccessCell<i32>)
        requires
            old(self)@.wf(),
            0 <= handle@ < old(self)@.scalars.len(),
        ensures
            cell@ == old(self)@.scalars[handle@].cell,
            final(self)@ == old(self)@.with_cell(handle@, final(cell)@),
            final(self)@.wf(),
    {
        proof {
            assert forall|c: AccessCell<i32>|
                #![trigger old(self)@.with_cell(handle@, c@)]
                old(self)@.with_cell(handle@, c@).wf() by {
                lemma_with_cell(old(self)@, handle@, c@);
            }
        }
        proof {
            assert forall|after: Arena, slot: ScalarSlot|
                after.nodes == self.nodes && slot.owners == self.scalars@[handle@].owners
                    && #[trigger] after.scalars@ == #[trigger] self.scalars@.update(
                    handle@,
                    slot,
                ) implies after@ == self@.with_cell(handle@, slot.cell@) by {
                assert(after@.scalars =~= self@.with_cell(handle@, slot.cell@).scalars);
                assert(after@.nodes =~= self@.nodes);
            }
        }
        let slot = &mut self.scalars[handle.index];
        let cell = &mut slot.cell;
        cell
    }

    /// Makes the empty list and hands out the one handle to it.
    pub fn nil(&mut self) -> (handle: SharedList)
        requires
            old(self)@.wf(),
        ensures
            handle@ == old(self)@.nodes.len(),
            final(self)@ == old(self)@.with_node(Link::Nil),
            final(self)@.wf(),
    {
        let index: usize = self.nodes.len();
        self.nodes.push(NodeSlot { link: Link::Nil, owners: 1 });
        proof {
            assert(self@.nodes =~= old(self)@.with_node(Link::Nil).nodes);
            assert(self@.scalars =~= old(self)@.scalars);
            lemma_with_node(old(self)@, Link::Nil);
        }
        SharedList { index }
    }

    /// Makes the list of the scalar `value` before the list `tail`, and hands out the
    /// one handle to it. The new node takes over the two handles.
    pub fn cons(&mut self, value: SharedValue, tail: SharedList) -> (handle: SharedList)
        requires
            old(self)@.wf(),
            old(self)@.scalar_held(value@),
            old(self)@.node_held(tail@),
        ensures
            handle@ == old(self)@.nodes.len(),
            final(self)@ == old(self)@.with_node(
                Link::Cons { value: value@ as usize, tail: tail@ as usize },
            ),
            final(self)@.wf(),
    {
        let index: usize = self.nodes.len();
        let link = Link::Cons { value: value.index, tail: tail.index };
        self.nodes.push(NodeSlot { link, owners: 1 });
        proof {
            assert(self@.nodes =~= old(self)@.with_node(link).nodes);
            assert(self@.scalars =~= old(self)@.scalars);
            lemma_with_node(old(self)@, link);
        }
        SharedList { index }
    }

    /// The number of owners of the first node of a list.
    pub fn list_owners(&self, handle: &SharedList) -> (owners: usize)
        requires
            0 <= handle@ < self@.nodes.len(),
        ensures
            owners == self@.nodes[handle@].owners,
    {
        self.nodes[handle.index].owners
    }

    /// A further handle to the same list.
    pub fn clone_list(&mut self, handle: &SharedList) -> (twin: SharedList)
        requires
            old(self)@.wf(),
            old(self)@.node_live(handle@),
            old(self)@.nodes[handle@].owners < usize::MAX,
        ensures
            twin@ == handle@,
            final(self)@ == old(self)@.share_list(handle@),
            final(self)@.wf(),
    {
        let index: usize = handle.index;
        let owners: usize = self.nodes[index].owners;
        self.nodes[index].owners = owners + 1;
        proof {
            assert(self@.nodes =~= old(self)@.share_list(handle@).nodes);
            assert(self@.scalars =~= old(self)@.scalars);
            lemma_share_list(old(self)@, handle@);
        }
        SharedList { index }
    }

    /// Gives up a handle to a list. With its last owner the first node is evicted, and
    /// then gives up, in the same way, the scalar and the tail that it owned.
    pub fn release_list(&mut self, handle: SharedList)
        requires
            old(self)@.wf(),
            old(self)@.node_held(handle@),
        ensures
            final(self)@ == old(self)@.release_list(handle@),
            final(self)@.wf(),
    {
        let ghost start = self@;
        let ghost target = self@.release_list(handle@);
        proof {
            lemma_release_list(start, handle@);
        }
        let mut current: usize = handle.index;
        loop
            invariant
                self@.wf(),
                self@.node_held(current as int),
                self@.release_list(current as int) == target,
                target == old(self)@.release_list(handle@),
                target.wf(),
            decreases current,
        {
            let ghost before = self@;
            let owners: usize = self.nodes[current].owners;
            if owners != 1 {
                self.nodes[current].owners = owners - 1;
                proof {
                    assert(self@.nodes =~= before.release_list(current as int).nodes);
                    assert(self@.scalars =~= before.scalars);
                }
                return ;
            }
            let link = self.nodes[current].link;
            self.nodes[current] = NodeSlot { link: Link::Nil, owners: 0 };
            proof {
                assert(self@.nodes =~= before.evict_node(current as int).nodes);
                assert(self@.scalars =~= before.scalars);
                lemma_evict_node(before, current as int);
            }
            match link {
                Link::Nil => {
                    return ;
                },
                Link::Cons { value, tail } => {
                    let ghost evicted = self@;
                    proof {
                        assert(before.scalar_live(value as int) && tail < current);
                        assert(before.scalar_handles(value as int) >= 0);
                        assert(before.node_handles(tail as int) >= 0);
                        assert(evicted.scalar_handles(value as int) == before.scalar_handles(
                            value as int,
                        ) + 1);
                        assert(evicted.node_handles(tail as int) == before.node_handles(
                            tail as int,
                        ) + 1);
                        lemma_release_scalar(evicted, value as int);
                    }
                    let left: usize = self.scalars[value].owners;
                    self.scalars[value].owners = left - 1;
                    proof {
                        assert(self@.scalars =~= evicted.release_scalar(value as int).scalars);
                        assert(self@.nodes =~= evicted.nodes);
                        assert(self@.node_handles(tail as int) == evicted.node_handles(
                            tail as int,
                        ));
                    }
                    current = tail;
                },
            }
        }
    }

    /// The values of a list, first to last, as they are now. To read a scalar while
    /// its write ticket is outstanding is a usage error, which the precondition rules
    /// out.
    pub fn to_vec(&self, handle: &SharedList) -> (values: Vec<i32>)
        requires
            self@.wf(),
            0 <= handle@ < self@.nodes.len(),
            forall|k: int|
                0 <= k < self@.cells(handle@).len() ==> (#[trigger] self@.cells(
                    handle@,
                )[k]).writers == 0,
        ensures
            values@ == self@.contents(handle@),
    {
        let mut values: Vec<i32> = Vec::new();
        let mut current: usize = handle.index;
        loop
            invariant
                self@.wf(),
                0 <= current < self@.nodes.len(),
                values@ + self@.contents(current as int) == self@.contents(handle@),
                forall|k: int|
                    0 <= k < self@.cells(current as int).len() ==> (#[trigger] self@.cells(
                        current as int,
                    )[k]).writers == 0,
            decreases current,
        {
            proof {
                lemma_list_of_cons(self@, current as int);
            }
            match self.nodes[current].link {
                Link::Nil => {
                    assert(values@ + Seq::<i32>::empty() =~= values@);
                    return values;
                },
                Link::Cons { value, tail } => {
                    let ghost rest = self@.cells(tail as int);
                    let ghost first = self@.scalars[value as int].cell;
                    assert(self@.scalar_live(value as int) && self@.node_live(tail as int));
                    assert(self@.cells(current as int)[0] == first);
                    assert forall|k: int| 0 <= k < rest.len() implies (#[trigger] rest[k]).writers
                        == 0 by {
                        assert(self@.cells(current as int)[k + 1] == rest[k]);
                    }
                    let ghost sofar = values@;
                    let glance = self.scalars[value].cell.try_read();
                    values.push(*glance.unwrap());
                    assert(values@ + self@.contents(tail as int) =~= sofar + self@.contents(
                        current as int,
                    ));
                    current = tail;
                },
            }
        }
    }

    /// Shows a list as text, with the values that its scalars have now. A scalar whose
    /// write ticket is outstanding is shown as a placeholder.
    pub fn render(&self, handle: &SharedList) -> (text: String)
        requires
            self@.wf(),
            0 <= handle@ < self@.nodes.len(),
        ensures
            text@ == render_cells(self@.cells(handle@)),
    {
        let mut text = String::new();
        let mut current: usize = handle.index;
        let mut depth: usize = 0;
        assert(text@ + render_cells(self@.cells(handle@)) + closing(0) =~= render_cells(
            self@.cells(handle@),
        ));
        loop
            invariant
                self@.wf(),
                0 <= current < self@.nodes.len(),
                depth + current <= handle@,
                handle@ < self@.nodes.len(),
                text@ + render_cells(self@.cells(current as int)) + closing(depth as nat)
                    == render_cells(self@.cells(handle@)),
            decreases current,
        {
            proof {
                lemma_list_of_cons(self@, current as int);
            }
            match self.nodes[current].link {
                Link::Nil => {
                    text.append("Nil");
                    while depth > 0
                        invariant
                            text@ + closing(depth as nat) == render_cells(self@.cells(handle@)),
                        decreases depth,
                    {
                        let ghost sofar = text@;
                        text.append(")");
                        depth = depth - 1;
                        assert(text@ + closing(depth as nat) =~= sofar + closing(
                            (depth + 1) as nat,
                        ));
                    }
                    assert(text@ + closing(0) =~= text@);
                    return text;
                },
                Link::Cons { value, tail } => {
                    let ghost sofar = text@;
                    let ghost cells = self@.cells(current as int);
                    let ghost rest = self@.cells(tail as int);
                    let ghost first = self@.scalars[value as int].cell;
                    assert(self@.scalar_live(value as int) && self@.node_live(tail as int));
                    text.append("Cons(");
                    text.append("RefCell { value: ");
                    match self.scalars[value].cell.try_read() {
                        Some(number) => {
                            push_decimal(&mut text, *number);
                        },
                        None => {
                            text.append("<borrowed>");
                        },
                    }
                    text.append(" }");
                    text.append(", ");
                    proof {
                        assert(cells[0] == first);
                        assert(cells.drop_first() =~= rest);
                        assert(text@ =~= sofar + "Cons("@ + render_cell(first) + ", "@);
                        assert(closing((depth + 1) as nat) == ")"@ + closing(depth as nat));
                        assert(text@ + render_cells(rest) + closing((depth + 1) as nat) =~= sofar
                            + render_cells(cells) + closing(depth as nat));
                    }
                    depth = depth + 1;
                    current = tail;
                },
            }
        }
    }
}

/// That many closing brackets.
spec fn closing(n: nat) -> Seq<char>
    decreases n,
{
    if n == 0 {
        Seq::empty()
    } else {
        ")"@ + closing((n - 1) as nat)
    }
}

} // verus!

//! What holds of the arena's model: how the operations keep it consistent, how many
//! handles they leave outside, and what the lists hold afterwards.

use crate::access_cell::CellModel;
use crate::list_model::{chain, refers, refers_count, uses, ArenaModel, Link, NodeModel};
use vstd::prelude::*;

verus! {

/// A further node adds its own references to the count, and nothing else.
pub proof fn lemma_uses_push(nodes: Seq<NodeModel>, node: NodeModel, as_tail: bool, slot: int)
    ensures
        uses(nodes.push(node), as_tail, slot) == uses(nodes, as_tail, slot) + refers_count(
            node.link,
            as_tail,
            slot,
        ),
{
    assert(nodes.push(node).drop_last() =~= nodes);
}

/// Replacing a node takes its references off the count and adds those of the new one.
pub proof fn lemma_uses_update(
    nodes: Seq<NodeModel>,
    i: int,
    node: NodeModel,
    as_tail: bool,
    slot: int,
)
    requires
        0 <= i < nodes.len(),
    ensures
        uses(nodes.update(i, node), as_tail, slot) + refers_count(nodes[i].link, as_tail, slot)
            == uses(nodes, as_tail, slot) + refers_count(node.link, as_tail, slot),
    decreases nodes.len(),
{
    let changed = nodes.update(i, node);
    if i == nodes.len() - 1 {
        assert(changed.drop_last() =~= nodes.drop_last());
    } else {
        assert(changed.drop_last() =~= nodes.drop_last().update(i, node));
        lemma_uses_update(nodes.drop_last(), i, node, as_tail, slot);
    }
}

/// A slot that some node refers to is counted.
pub proof fn lemma_used(nodes: Seq<NodeModel>, j: int, as_tail: bool, slot: int)
    requires
        0 <= j < nodes.len(),
        refers(nodes[j].link, as_tail, slot),
    ensures
        uses(nodes, as_tail, slot) >= 1,
    decreases nodes.len(),
{
    if j < nodes.len() - 1 {
        lemma_used(nodes.drop_last(), j, as_tail, slot);
    }
}

/// A slot that no node refers to has a count of zero.
pub proof fn lemma_unused(nodes: Seq<NodeModel>, as_tail: bool, slot: int)
    requires
        forall|j: int| 0 <= j < nodes.len() ==> !refers(#[trigger] nodes[j].link, as_tail, slot),
    ensures
        uses(nodes, as_tail, slot) == 0,
    decreases nodes.len(),
{
    if nodes.len() > 0 {
        let shorter = nodes.drop_last();
        assert forall|j: int| 0 <= j < shorter.len() implies !refers(
            #[trigger] shorter[j].link,
            as_tail,
            slot,
        ) by {
            assert(shorter[j] == nodes[j]);
        }
        lemma_unused(shorter, as_tail, slot);
    }
}

/// A slot with a count of zero is referred to by no node.
pub proof fn lemma_unused_everywhere(nodes: Seq<NodeModel>, as_tail: bool, slot: int)
    requires
        uses(nodes, as_tail, slot) == 0,
    ensures
        forall|j: int| 0 <= j < nodes.len() ==> !refers(#[trigger] nodes[j].link, as_tail, slot),
{
    assert forall|j: int| 0 <= j < nodes.len() implies !refers(
        #[trigger] nodes[j].link,
        as_tail,
        slot,
    ) by {
        if refers(nodes[j].link, as_tail, slot) {
            lemma_used(nodes, j, as_tail, slot);
        }
    }
}

/// A new scalar keeps the arena consistent. One handle to it is outside, and the
/// handles to everything else are as before.
pub proof fn lemma_with_scalar(m: ArenaModel, value: i32)
    requires
        m.wf(),
    ensures
        m.with_scalar(value).wf(),
        m.with_scalar(value).scalar_handles(m.scalars.len() as int) == 1,
        forall|v: int|
            0 <= v < m.scalars.len() ==> #[trigger] m.with_scalar(value).scalar_handles(v)
                == m.scalar_handles(v),
        forall|i: int|
            0 <= i < m.nodes.len() ==> #[trigger] m.with_scalar(value).node_handles(i)
                == m.node_handles(i),
{
    let after = m.with_scalar(value);
    let fresh = m.scalars.len() as int;
    assert forall|j: int| 0 <= j < m.nodes.len() implies !refers(
        #[trigger] m.nodes[j].link,
        false,
        fresh,
    ) by {
        if let Link::Cons { value, tail } = m.nodes[j].link {
            assert(m.scalar_live(value as int));
        }
    }
    lemma_unused(m.nodes, false, fresh);
    assert forall|v: int| 0 <= v < after.scalars.len() implies #[trigger] after.scalar_handles(v)
        >= 0 by {
        if v < fresh {
            assert(m.scalar_handles(v) >= 0);
        }
    }
    assert forall|t: int| 0 <= t < after.nodes.len() implies #[trigger] after.node_handles(t)
        >= 0 by {
        assert(m.node_handles(t) >= 0);
    }
    assert forall|i: int| 0 <= i < after.nodes.len() implies match (#[trigger] after.nodes[i]).link {
        Link::Nil => true,
        Link::Cons { value, tail } => after.scalar_live(value as int) && tail < i
            && after.node_live(tail as int),
    } by {
        if let Link::Cons { value, tail } = m.nodes[i].link {
            assert(m.scalar_live(value as int));
        }
    }
}

/// Whether a node with link `link` can be added: what it refers to is held outside the
/// arena, so that the node can take those handles over.
pub open spec fn can_link(m: ArenaModel, link: Link) -> bool {
    match link {
        Link::Nil => true,
        Link::Cons { value, tail } => m.scalar_held(value as int) && m.node_held(tail as int),
    }
}

/// A new node keeps the arena consistent. One handle to it is outside, and it has taken
/// over one handle to each slot that it refers to.
pub proof fn lemma_with_node(m: ArenaModel, link: Link)
    requires
        m.wf(),
        can_link(m, link),
    ensures
        m.with_node(link).wf(),
        m.with_node(link).node_handles(m.nodes.len() as int) == 1,
        forall|v: int|
            0 <= v < m.scalars.len() ==> #[trigger] m.with_node(link).scalar_handles(v)
                == m.scalar_handles(v) - refers_count(link, false, v),
        forall|i: int|
            0 <= i < m.nodes.len() ==> #[trigger] m.with_node(link).node_handles(i)
                == m.node_handles(i) - refers_count(link, true, i),
{
    let after = m.with_node(link);
    let fresh = m.nodes.len() as int;
    let node = NodeModel { link, owners: 1 };
    assert forall|as_tail: bool, slot: int|
        #[trigger] uses(after.nodes, as_tail, slot) == uses(m.nodes, as_tail, slot) + refers_count(
            link,
            as_tail,
            slot,
        ) by {
        lemma_uses_push(m.nodes, node, as_tail, slot);
    }
    assert forall|j: int| 0 <= j < m.nodes.len() implies !refers(
        #[trigger] m.nodes[j].link,
        true,
        fresh,
    ) by {}
    lemma_unused(m.nodes, true, fresh);
    assert forall|v: int| 0 <= v < after.scalars.len() implies #[trigger] after.scalar_handles(v)
        >= 0 by {
        assert(m.scalar_handles(v) >= 0);
    }
    assert forall|t: int| 0 <= t < after.nodes.len() implies #[trigger] after.node_handles(t)
        >= 0 by {
        if t < fresh {
            assert(m.node_handles(t) >= 0);
        }
    }
    assert forall|i: int| 0 <= i < after.nodes.len() implies match (#[trigger] after.nodes[i]).link {
        Link::Nil => true,
        Link::Cons { value, tail } => after.scalar_live(value as int) && tail < i
            && after.node_live(tail as int),
    } by {
        if i < fresh {
            if let Link::Cons { value, tail } = m.nodes[i].link {
                assert(m.node_live(tail as int));
            }
        }
    }
}

/// Changing a cell keeps the arena consistent and the handles as they are.
pub proof fn lemma_with_cell(m: ArenaModel, v: int, cell: CellModel<i32>)
    requires
        m.wf(),
        0 <= v < m.scalars.len(),
    ensures
        m.with_cell(v, cell).wf(),
        forall|x: int|
            0 <= x < m.scalars.len() ==> #[trigger] m.with_cell(v, cell).scalar_handles(x)
                == m.scalar_handles(x),
        forall|i: int|
            0 <= i < m.nodes.len() ==> #[trigger] m.with_cell(v, cell).node_handles(i)
                == m.node_handles(i),
{
    let after = m.with_cell(v, cell);
    assert forall|x: int| 0 <= x < after.scalars.len() implies #[trigger] after.scalar_handles(x)
        >= 0 by {
        assert(m.scalar_handles(x) >= 0);
    }
    assert forall|t: int| 0 <= t < after.nodes.len() implies #[trigger] after.node_handles(t)
        >= 0 by {
        assert(m.node_handles(t) >= 0);
    }
    assert forall|i: int| 0 <= i < after.nodes.len() implies match (#[trigger] after.nodes[i]).link {
        Link::Nil => true,
        Link::Cons { value, tail } => after.scalar_live(value as int) && tail < i
            && after.node_live(tail as int),
    } by {
        if let Link::Cons { value, tail } = m.nodes[i].link {
            assert(m.scalar_live(value as int));
        }
    }
}

/// A further owner of a scalar keeps the arena consistent: one more handle to that
/// scalar is outside, and the handles to everything else are as before.
pub proof fn lemma_share_scalar(m: ArenaModel, v: int)
    requires
        m.wf(),
        0 <= v < m.scalars.len(),
    ensures
        m.share_scalar(v).wf(),
        forall|x: int|
            0 <= x < m.scalars.len() ==> #[trigger] m.share_scalar(v).scalar_handles(x)
                == m.scalar_handles(x) + if x == v {
                1int
            } else {
                0int
            },
        forall|i: int|
            0 <= i < m.nodes.len() ==> #[trigger] m.share_scalar(v).node_handles(i)
                == m.node_handles(i),
{
    let after = m.share_scalar(v);
    assert forall|x: int| 0 <= x < after.scalars.len() implies #[trigger] after.scalar_handles(x)
        >= 0 by {
        assert(m.scalar_handles(x) >= 0);
    }
    assert forall|t: int| 0 <= t < after.nodes.len() implies #[trigger] after.node_handles(t)
        >= 0 by {
        assert(m.node_handles(t) >= 0);
    }
    assert forall|i: int| 0 <= i < after.nodes.len() implies match (#[trigger] after.nodes[i]).link {
        Link::Nil => true,
        Link::Cons { value, tail } => after.scalar_live(value as int) && tail < i
            && after.node_live(tail as int),
    } by {
        if let Link::Cons { value, tail } = m.nodes[i].link {
            assert(m.scalar_live(value as int));
        }
    }
}

/// Giving up a handle to a scalar keeps the arena consistent: one handle fewer to that
/// scalar is outside, and the handles to everything else are as before.
pub proof fn lemma_release_scalar(m: ArenaModel, v: int)
    requires
        m.wf(),
        m.scalar_held(v),
    ensures
        m.release_scalar(v).wf(),
        m.shrinks_to(m.release_scalar(v)),
        forall|x: int|
            0 <= x < m.scalars.len() ==> #[trigger] m.release_scalar(v).scalar_handles(x)
                == m.scalar_handles(x) - if x == v {
                1int
            } else {
                0int
            },
        forall|i: int|
            0 <= i < m.nodes.len() ==> #[trigger] m.release_scalar(v).node_handles(i)
                == m.node_handles(i),
{
    let after = m.release_scalar(v);
    assert forall|x: int| 0 <= x < after.scalars.len() implies #[trigger] after.scalar_handles(x)
        >= 0 by {
        assert(m.scalar_handles(x) >= 0);
    }
    assert forall|t: int| 0 <= t < after.nodes.len() implies #[trigger] after.node_handles(t)
        >= 0 by {
        assert(m.node_handles(t) >= 0);
    }
    assert forall|i: int| 0 <= i < after.nodes.len() implies match (#[trigger] after.nodes[i]).link {
        Link::Nil => true,
        Link::Cons { value, tail } => after.scalar_live(value as int) && tail < i
            && after.node_live(tail as int),
    } by {
        if let Link::Cons { value, tail } = m.nodes[i].link {
            assert(m.scalar_live(value as int));
            if value == v {
                lemma_used(m.nodes, i, false, v);
            }
        }
    }
}

/// Changing the number of owners of a node changes no count of references.
pub proof fn lemma_owners_leave_uses(m: ArenaModel, i: int, owners: nat)
    requires
        0 <= i < m.nodes.len(),
    ensures
        forall|as_tail: bool, slot: int|
            #[trigger] uses(m.with_node_owners(i, owners).nodes, as_tail, slot) == uses(
                m.nodes,
                as_tail,
                slot,
            ),
{
    let node = NodeModel { owners, ..m.nodes[i] };
    assert forall|as_tail: bool, slot: int|
        #[trigger] uses(m.with_node_owners(i, owners).nodes, as_tail, slot) == uses(
            m.nodes,
            as_tail,
            slot,
        ) by {
        lemma_uses_update(m.nodes, i, node, as_tail, slot);
    }
}

/// A further owner of a node keeps the arena consistent: one more handle to that node
/// is outside, and the handles to everything else are as before.
pub proof fn lemma_share_list(m: ArenaModel, i: int)
    requires
        m.wf(),
        0 <= i < m.nodes.len(),
    ensures
        m.share_list(i).wf(),
        forall|x: int|
            0 <= x < m.scalars.len() ==> #[trigger] m.share_list(i).scalar_handles(x)
                == m.scalar_handles(x),
        forall|j: int|
            0 <= j < m.nodes.len() ==> #[trigger] m.share_list(i).node_handles(j)
                == m.node_handles(j) + if j == i {
                1int
            } else {
                0int
            },
{
    let after = m.share_list(i);
    lemma_owners_leave_uses(m, i, m.nodes[i].owners + 1);
    assert forall|x: int| 0 <= x < after.scalars.len() implies #[trigger] after.scalar_handles(x)
        >= 0 by {
        assert(m.scalar_handles(x) >= 0);
    }
    assert forall|t: int| 0 <= t < after.nodes.len() implies #[trigger] after.node_handles(t)
        >= 0 by {
        assert(m.node_handles(t) >= 0);
    }
    assert forall|j: int| 0 <= j < after.nodes.len() implies match (#[trigger] after.nodes[j]).link {
        Link::Nil => true,
        Link::Cons { value, tail } => after.scalar_live(value as int) && tail < j
            && after.node_live(tail as int),
    } by {
        if let Link::Cons { value, tail } = m.nodes[j].link {
            assert(m.node_live(tail as int));
        }
    }
    assert forall|j: int|
        0 <= j < after.nodes.len() && after.nodes[j].owners == 0 implies (
    #[trigger] after.nodes[j]).link == Link::Nil by {
        assert(m.nodes[j].owners == 0);
    }
}

/// Giving up owners step by step is giving up owners.
pub proof fn lemma_shrinks_transitive(a: ArenaModel, b: ArenaModel, c: ArenaModel)
    requires
        a.shrinks_to(b),
        b.shrinks_to(c),
    ensures
        a.shrinks_to(c),
{
    assert forall|v: int| 0 <= v < a.scalars.len() implies (#[trigger] c.scalars[v]).cell
        == a.scalars[v].cell && c.scalars[v].owners <= a.scalars[v].owners by {
        assert(b.scalars[v].cell == a.scalars[v].cell);
    }
    assert forall|i: int| 0 <= i < a.nodes.len() implies (#[trigger] c.nodes[i]).owners
        <= a.nodes[i].owners && (c.nodes[i].owners > 0 ==> c.nodes[i].link
        == a.nodes[i].link) by {
        assert(b.nodes[i].owners <= a.nodes[i].owners);
    }
}

/// Giving up a handle to a node that has other owners keeps the arena consistent: one
/// handle fewer to that node is outside, and the handles to everything else are as
/// before.
pub proof fn lemma_drop_node_owner(m: ArenaModel, i: int)
    requires
        m.wf(),
        m.node_held(i),
        m.nodes[i].owners != 1,
    ensures
        m.release_list(i) == m.with_node_owners(i, (m.nodes[i].owners - 1) as nat),
        m.release_list(i).wf(),
        m.shrinks_to(m.release_list(i)),
        forall|x: int|
            0 <= x < m.scalars.len() ==> #[trigger] m.release_list(i).scalar_handles(x)
                == m.scalar_handles(x),
        forall|j: int|
            0 <= j < m.nodes.len() ==> #[trigger] m.release_list(i).node_handles(j)
                == m.node_handles(j) - if j == i {
                1int
            } else {
                0int
            },
{
    let after = m.with_node_owners(i, (m.nodes[i].owners - 1) as nat);
    lemma_owners_leave_uses(m, i, (m.nodes[i].owners - 1) as nat);
    assert forall|x: int| 0 <= x < after.scalars.len() implies #[trigger] after.scalar_handles(x)
        >= 0 by {
        assert(m.scalar_handles(x) >= 0);
    }
    assert forall|t: int| 0 <= t < after.nodes.len() implies #[trigger] after.node_handles(t)
        >= 0 by {
        assert(m.node_handles(t) >= 0);
    }
    assert forall|j: int| 0 <= j < after.nodes.len() implies match (#[trigger] after.nodes[j]).link {
        Link::Nil => true,
        Link::Cons { value, tail } => after.scalar_live(value as int) && tail < j
            && after.node_live(tail as int),
    } by {
        if let Link::Cons { value, tail } = m.nodes[j].link {
            assert(m.node_live(tail as int));
        }
    }
    assert forall|j: int|
        0 <= j < after.nodes.len() && after.nodes[j].owners == 0 implies (
    #[trigger] after.nodes[j]).link == Link::Nil by {
        assert(m.nodes[j].owners == 0);
    }
}

/// Evicting a node whose one owner is a handle outside keeps the arena consistent. The
/// handle is gone, and what the node referred to is now owed one handle each: they are
/// counted as outside.
pub proof fn lemma_evict_node(m: ArenaModel, i: int)
    requires
        m.wf(),
        m.node_held(i),
        m.nodes[i].owners == 1,
    ensures
        m.evict_node(i).wf(),
        m.shrinks_to(m.evict_node(i)),
        forall|x: int|
            0 <= x < m.scalars.len() ==> #[trigger] m.evict_node(i).scalar_handles(x)
                == m.scalar_handles(x) + refers_count(m.nodes[i].link, false, x),
        forall|j: int|
            0 <= j < m.nodes.len() ==> #[trigger] m.evict_node(i).node_handles(j)
                == m.node_handles(j) + refers_count(m.nodes[i].link, true, j) - if j == i {
                1int
            } else {
                0int
            },
{
    let after = m.evict_node(i);
    let gone = NodeModel { link: Link::Nil, owners: 0 };
    lemma_unused_everywhere(m.nodes, true, i);
    assert forall|as_tail: bool, slot: int|
        #[trigger] uses(after.nodes, as_tail, slot) + refers_count(
            m.nodes[i].link,
            as_tail,
            slot,
        ) == uses(m.nodes, as_tail, slot) by {
        lemma_uses_update(m.nodes, i, gone, as_tail, slot);
    }
    assert(!refers(m.nodes[i].link, true, i));
    assert forall|x: int| 0 <= x < after.scalars.len() implies #[trigger] after.scalar_handles(x)
        >= 0 by {
        assert(m.scalar_handles(x) >= 0);
    }
    assert forall|t: int| 0 <= t < after.nodes.len() implies #[trigger] after.node_handles(t)
        >= 0 by {
        assert(m.node_handles(t) >= 0);
    }
    assert forall|j: int| 0 <= j < after.nodes.len() implies match (#[trigger] after.nodes[j]).link {
        Link::Nil => true,
        Link::Cons { value, tail } => after.scalar_live(value as int) && tail < j
            && after.node_live(tail as int),
    } by {
        if j != i {
            if let Link::Cons { value, tail } = m.nodes[j].link {
                assert(m.node_live(tail as int));
                assert(!refers(m.nodes[j].link, true, i));
            }
        }
    }
    assert forall|j: int|
        0 <= j < after.nodes.len() && after.nodes[j].owners == 0 implies (
    #[trigger] after.nodes[j]).link == Link::Nil by {
        if j != i {
            assert(m.nodes[j].owners == 0);
        }
    }
}

/// Giving up a handle to a list keeps the arena consistent, however far the eviction
/// runs down the list. Owners are given up and nothing else happens. Outside the arena
/// there is one handle fewer to that node, and the handles to everything else are as
/// before.
pub proof fn lemma_release_list(m: ArenaModel, i: int)
    requires
        m.wf(),
        m.node_held(i),
    ensures
        m.release_list(i).wf(),
        m.shrinks_to(m.release_list(i)),
        forall|x: int|
            0 <= x < m.scalars.len() ==> #[trigger] m.release_list(i).scalar_handles(x)
                == m.scalar_handles(x),
        forall|j: int|
            0 <= j < m.nodes.len() ==> #[trigger] m.release_list(i).node_handles(j)
                == m.node_handles(j) - if j == i {
                1int
            } else {
                0int
            },
    decreases i,
{
    if m.nodes[i].owners != 1 {
        lemma_drop_node_owner(m, i);
    } else {
        lemma_evict_node(m, i);
        let evicted = m.evict_node(i);
        match m.nodes[i].link {
            Link::Nil => {},
            Link::Cons { value, tail } => {
                assert(m.scalar_live(value as int) && tail < i && m.node_live(tail as int));
                assert(evicted.scalar_handles(value as int) == m.scalar_handles(value as int)
                    + 1);
                assert(m.scalar_handles(value as int) >= 0);
                lemma_release_scalar(evicted, value as int);
                let rest = evicted.release_scalar(value as int);
                lemma_shrinks_transitive(m, evicted, rest);
                assert(rest.node_handles(tail as int) == evicted.node_handles(tail as int));
                assert(evicted.node_handles(tail as int) == m.node_handles(tail as int) + 1);
                assert(m.node_handles(tail as int) >= 0);
                lemma_release_list(rest, tail as int);
                let after = rest.release_list(tail as int);
                lemma_shrinks_transitive(m, rest, after);
                assert forall|x: int| 0 <= x < m.scalars.len() implies #[trigger] after.scalar_handles(
                    x,
                ) == m.scalar_handles(x) by {
                    assert(rest.scalar_handles(x) == evicted.scalar_handles(x) - if x == value {
                        1int
                    } else {
                        0int
                    });
                    assert(evicted.scalar_handles(x) == m.scalar_handles(x) + refers_count(
                        m.nodes[i].link,
                        false,
                        x,
                    ));
                }
                assert forall|j: int| 0 <= j < m.nodes.len() implies #[trigger] after.node_handles(
                    j,
                ) == m.node_handles(j) - if j == i {
                    1int
                } else {
                    0int
                } by {
                    assert(rest.node_handles(j) == evicted.node_handles(j));
                    assert(evicted.node_handles(j) == m.node_handles(j) + refers_count(
                        m.nodes[i].link,
                        true,
                        j,
                    ) - if j == i {
                        1int
                    } else {
                        0int
                    });
                }
            },
        }
    }
}

/// The scalars of a list have not been evicted.
pub proof fn lemma_chain_live(m: ArenaModel, i: int)
    requires
        m.wf(),
    ensures
        forall|k: int|
            0 <= k < chain(m.nodes, i).len() ==> m.scalar_live(#[trigger] chain(m.nodes, i)[k]),
    decreases i,
{
    if 0 <= i < m.nodes.len() {
        if let Link::Cons { value, tail } = m.nodes[i].link {
            assert(m.scalar_live(value as int) && tail < i);
            lemma_chain_live(m, tail as int);
            let rest = chain(m.nodes, tail as int);
            assert(chain(m.nodes, i) == seq![value as int] + rest);
            assert forall|k: int| 0 <= k < chain(m.nodes, i).len() implies m.scalar_live(
                #[trigger] chain(m.nodes, i)[k],
            ) by {
                if k > 0 {
                    assert(chain(m.nodes, i)[k] == rest[k - 1]);
                }
            }
        }
    }
}

/// A list is its first scalar and then its tail.
pub proof fn lemma_list_of_cons(m: ArenaModel, i: int)
    requires
        m.wf(),
        0 <= i < m.nodes.len(),
    ensures
        match m.nodes[i].link {
            Link::Nil => m.contents(i) == Seq::<i32>::empty() && m.cells(i) == Seq::<
                CellModel<i32>,
            >::empty(),
            Link::Cons { value, tail } => m.contents(i) == seq![
                m.scalars[value as int].cell.value,
            ] + m.contents(tail as int) && m.cells(i) == seq![m.scalars[value as int].cell]
                + m.cells(tail as int),
        },
{
    match m.nodes[i].link {
        Link::Nil => {
            assert(m.contents(i) =~= Seq::<i32>::empty());
            assert(m.cells(i) =~= Seq::<CellModel<i32>>::empty());
        },
        Link::Cons { value, tail } => {
            assert(tail < i);
            assert(m.contents(i) =~= seq![m.scalars[value as int].cell.value] + m.contents(
                tail as int,
            ));
            assert(m.cells(i) =~= seq![m.scalars[value as int].cell] + m.cells(tail as int));
        },
    }
}

/// A list is decided by the links of the nodes up to its first node and by the cells
/// of the scalars: two arenas that agree on these agree on the list.
pub proof fn lemma_same_links_same_list(a: ArenaModel, b: ArenaModel, i: int)
    requires
        a.wf(),
        0 <= i < a.nodes.len(),
        i < b.nodes.len(),
        forall|k: int| 0 <= k <= i ==> (#[trigger] a.nodes[k]).link == b.nodes[k].link,
        a.scalars.len() <= b.scalars.len(),
        forall|v: int|
            0 <= v < a.scalars.len() ==> (#[trigger] a.scalars[v]).cell == b.scalars[v].cell,
    ensures
        chain(a.nodes, i) == chain(b.nodes, i),
        a.contents(i) == b.contents(i),
        a.cells(i) == b.cells(i),
    decreases i,
{
    if let Link::Cons { value, tail } = a.nodes[i].link {
        assert(tail < i);
        lemma_same_links_same_list(a, b, tail as int);
    }
    lemma_chain_live(a, i);
    assert(a.contents(i) =~= b.contents(i));
    assert(a.cells(i) =~= b.cells(i));
}

/// A list that is still there after owners were given up holds what it held.
pub proof fn lemma_shrinking_keeps_lists(before: ArenaModel, after: ArenaModel, i: int)
    requires
        before.shrinks_to(after),
        after.wf(),
        after.node_live(i),
    ensures
        before.node_live(i),
        chain(after.nodes, i) == chain(before.nodes, i),
        after.contents(i) == before.contents(i),
        after.cells(i) == before.cells(i),
    decreases i,
{
    if let Link::Cons { value, tail } = after.nodes[i].link {
        assert(tail < i && after.node_live(tail as int));
        lemma_shrinking_keeps_lists(before, after, tail as int);
    }
    lemma_chain_live(after, i);
    assert(after.contents(i) =~= before.contents(i));
    assert(after.cells(i) =~= before.cells(i));
}

/// A change of a shared scalar is seen through every list that holds it: after the
/// cell in slot `v` has changed, each list holds the new value wherever it holds that
/// scalar, and what it held before everywhere else.
pub proof fn lemma_cell_change_shows_in_every_list(
    m: ArenaModel,
    v: int,
    cell: CellModel<i32>,
    i: int,
)
    requires
        m.wf(),
        0 <= v < m.scalars.len(),
    ensures
        chain(m.with_cell(v, cell).nodes, i) == chain(m.nodes, i),
        m.with_cell(v, cell).contents(i).len() == m.contents(i).len(),
        forall|k: int|
            0 <= k < m.contents(i).len() ==> #[trigger] m.with_cell(v, cell).contents(i)[k] == if chain(
                m.nodes,
                i,
            )[k] == v {
                cell.value
            } else {
                m.contents(i)[k]
            },
{
    lemma_chain_live(m, i);
}

} // verus!

//! What holds of the places of sessions: what stored rows say, and when stored links stay right.

use crate::text::opt_text;
use crate::topology::{
    ancestor, children_of, describes, has_children, has_depth, is_stored, links, parent_in,
    relations_of, stored_parent, topology_maintenance, way_ends, ConversationLink,
    ExistingSessionRelation, SessionRow, TopologyMaintenance,
};
use vstd::prelude::*;

verus! {

/// A session is stored where a row is of it, and its parent is that of the last such row.
pub proof fn rows_say_what_is_stored(rows: Seq<SessionRow>, session_id: Seq<char>, end: int)
    requires
        0 <= end <= rows.len(),
    ensures
        is_stored(rows, session_id, end) <==> exists|place: int|
            0 <= place < end && (#[trigger] rows[place]).session_id@ == session_id,
        forall|place: int|
            0 <= place < end && (#[trigger] rows[place]).session_id@ == session_id && (forall|
                later: int,
            |
                place < later < end ==> (#[trigger] rows[later]).session_id@ != session_id)
                ==> stored_parent(rows, session_id, end) == opt_text(
                rows[place].parent_session_id,
            ),
        !is_stored(rows, session_id, end) ==> stored_parent(rows, session_id, end) is None,
    decreases end,
{
    if end > 0 {
        rows_say_what_is_stored(rows, session_id, end - 1);
        if is_stored(rows, session_id, end - 1) {
            let place = choose|place: int|
                0 <= place < end - 1 && (#[trigger] rows[place]).session_id@ == session_id;
            assert(rows[place].session_id@ == session_id);
        }
        assert(rows[end - 1].session_id@ == rows[end - 1].session_id@);
    }
}

/// The children of a session are the rows that name it as their parent, each once.
pub proof fn children_are_counted_once(rows: Seq<SessionRow>, parent: Seq<char>)
    ensures
        children_of(rows, parent, rows.len() as int) == rows.filter(
            |row: SessionRow| opt_text(row.parent_session_id) == Some(parent),
        ).len(),
{
    children_of_part(rows, parent, rows.len() as int);
    assert(rows.take(rows.len() as int) =~= rows);
}

proof fn children_of_part(rows: Seq<SessionRow>, parent: Seq<char>, end: int)
    requires
        0 <= end <= rows.len(),
    ensures
        children_of(rows, parent, end) == rows.take(end).filter(
            |row: SessionRow| opt_text(row.parent_session_id) == Some(parent),
        ).len(),
    decreases end,
{
    reveal(Seq::filter);
    if end > 0 {
        children_of_part(rows, parent, end - 1);
        assert(rows.take(end).drop_last() =~= rows.take(end - 1));
        assert(rows.take(end).last() == rows[end - 1]);
    }
}

/// The way up from a session goes from parent to parent, passes no session twice, and ends where
/// there is no further parent or where it comes back on itself.
pub proof fn way_up_goes_from_parent_to_parent(
    parents: Map<Seq<char>, Option<String>>,
    session_id: Seq<char>,
    depth: int,
)
    requires
        has_depth(parents, session_id, depth),
    ensures
        ancestor(parents, session_id, 0) == session_id,
        forall|steps: int|
            0 <= steps < depth ==> parents.dom().contains(
                #[trigger] ancestor(parents, session_id, steps),
            ) && opt_text(parents[ancestor(parents, session_id, steps)]) == Some(
                ancestor(parents, session_id, steps + 1),
            ),
        forall|left: int, right: int|
            0 <= left < right < depth ==> #[trigger] ancestor(parents, session_id, left)
                != #[trigger] ancestor(parents, session_id, right),
        ({
            let end = ancestor(parents, session_id, depth);
            ||| !parents.dom().contains(end) || opt_text(parents[end]) is None
            ||| exists|earlier: int|
                0 <= earlier < depth && #[trigger] ancestor(parents, session_id, earlier) == end
        }),
{
    assert forall|steps: int| 0 <= steps < depth implies parents.dom().contains(
        #[trigger] ancestor(parents, session_id, steps),
    ) && opt_text(parents[ancestor(parents, session_id, steps)]) == Some(
        ancestor(parents, session_id, steps + 1),
    ) by {
        assert(!way_ends(parents, session_id, steps));
    }
    assert forall|left: int, right: int| 0 <= left < right < depth implies #[trigger] ancestor(
        parents,
        session_id,
        left,
    ) != #[trigger] ancestor(parents, session_id, right) by {
        assert(!way_ends(parents, session_id, right));
    }
}

/// A session has one depth, and so one root.
pub proof fn depth_is_unique(
    parents: Map<Seq<char>, Option<String>>,
    session_id: Seq<char>,
    left: int,
    right: int,
)
    requires
        has_depth(parents, session_id, left),
        has_depth(parents, session_id, right),
    ensures
        left == right,
{
    if left < right {
        assert(!way_ends(parents, session_id, left));
    } else if right < left {
        assert(!way_ends(parents, session_id, right));
    }
}

/// The stored parents once a session with this parent is stored too.
pub open spec fn with_session(
    parents: Map<Seq<char>, Option<String>>,
    session_id: Seq<char>,
    parent: Option<String>,
) -> Map<Seq<char>, Option<String>> {
    parents.insert(session_id, parent)
}

/// Whether what the store knows of a session's place is what the stored parents say.
pub open spec fn is_known_place(
    relation: Option<ExistingSessionRelation>,
    child_count: usize,
    parents: Map<Seq<char>, Option<String>>,
    session_id: Seq<char>,
) -> bool {
    &&& (relation is Some && relation->0.exists) == parents.dom().contains(session_id)
    &&& parents.dom().contains(session_id) ==> opt_text(relation->0.parent_session_id) == opt_text(
        parents[session_id],
    )
    &&& child_count == 0 ==> !has_children(parents, session_id)
}

proof fn other_ways_up_stay(
    parents: Map<Seq<char>, Option<String>>,
    session_id: Seq<char>,
    other: Seq<char>,
    steps: int,
)
    requires
        !parents.dom().contains(session_id),
        !has_children(parents, session_id),
        other != session_id,
        0 <= steps,
        forall|before: int| 0 <= before < steps ==> parent_in(
            parents,
            #[trigger] ancestor(parents, other, before),
        ) is Some,
    ensures
        ({
            let after = with_session(parents, session_id, None);
            &&& ancestor(after, other, steps) == ancestor(parents, other, steps)
            &&& ancestor(parents, other, steps) != session_id
        }),
    decreases steps,
{
    let after = with_session(parents, session_id, None);
    if steps > 0 {
        other_ways_up_stay(parents, session_id, other, steps - 1);
        let below = ancestor(parents, other, steps - 1);
        assert(parent_in(parents, below) is Some);
        assert(parent_in(after, below) == parent_in(parents, below));
        if ancestor(parents, other, steps) == session_id {
            assert(parents.dom().contains(below) && opt_text(parents[below]) == Some(session_id));
        }
    }
}

/// Stored links that are left alone are right: where an import leaves them as they are, no parent
/// changes; where it only adds a root link, the session is its own root, and every other session
/// has the root and the depth that it had. Where its parent changes, or it is new and has a parent
/// or children, all links are computed anew.
pub proof fn kept_links_are_right(
    relation: Option<ExistingSessionRelation>,
    child_count: usize,
    parents: Map<Seq<char>, Option<String>>,
    session_id: Seq<char>,
    parent: Option<String>,
    other: Seq<char>,
    depth: int,
)
    requires
        is_known_place(relation, child_count, parents, session_id),
        other != session_id,
        has_depth(parents, other, depth),
    ensures
        ({
            let after = with_session(parents, session_id, parent);
            let work = topology_maintenance(relation, child_count, opt_text(parent));
            &&& work == TopologyMaintenance::Unchanged <==> parents.dom().contains(session_id)
                && parent_in(parents, session_id) == opt_text(parent)
            &&& work == TopologyMaintenance::InsertRootLink <==> !parents.dom().contains(session_id)
                && opt_text(parent) is None && child_count == 0
            &&& work == TopologyMaintenance::Unchanged ==> forall|id: Seq<char>| #[trigger]
                parent_in(after, id) == parent_in(parents, id)
            &&& work == TopologyMaintenance::InsertRootLink ==> has_depth(after, session_id, 0)
                && has_depth(after, other, depth) && ancestor(after, other, depth) == ancestor(
                parents,
                other,
                depth,
            )
        }),
{
    let after = with_session(parents, session_id, parent);
    let work = topology_maintenance(relation, child_count, opt_text(parent));
    if work == TopologyMaintenance::Unchanged {
        assert forall|id: Seq<char>| #[trigger] parent_in(after, id) == parent_in(parents, id) by {}
    }
    if work == TopologyMaintenance::InsertRootLink {
        assert(ancestor(after, session_id, 0) == session_id);
        assert(parent is None);
        way_up_goes_from_parent_to_parent(parents, other, depth);
        assert forall|before: int| 0 <= before < depth implies parent_in(
            parents,
            #[trigger] ancestor(parents, other, before),
        ) is Some by {}
        assert forall|steps: int| 0 <= steps <= depth implies #[trigger] ancestor(
            after,
            other,
            steps,
        ) == ancestor(parents, other, steps) && ancestor(parents, other, steps) != session_id by {
            other_ways_up_stay(parents, session_id, other, steps);
        }
        assert forall|steps: int| 0 <= steps <= depth implies #[trigger] way_ends(
            after,
            other,
            steps,
        ) == way_ends(parents, other, steps) by {
            let end = ancestor(parents, other, steps);
            assert(ancestor(after, other, steps) == end);
            assert(parent_in(after, end) == parent_in(parents, end));
            if way_ends(parents, other, steps) && parent_in(parents, end) is Some {
                let earlier = choose|earlier: int|
                    0 <= earlier < steps && #[trigger] ancestor(parents, other, earlier) == end;
                assert(ancestor(after, other, earlier) == end);
            }
            if way_ends(after, other, steps) && parent_in(parents, end) is Some {
                let earlier = choose|earlier: int|
                    0 <= earlier < steps && #[trigger] ancestor(after, other, earlier) == ancestor(
                        after,
                        other,
                        steps,
                    );
                assert(ancestor(parents, other, earlier) == end);
            }
        }
    }
}

/// What rows say of sessions is said of each session that is stored or is a parent, and of no
/// other: that it is stored, who its parent is, and how many sessions name it.
pub proof fn relations_say_what_rows_say(
    relations: Map<Seq<char>, ExistingSessionRelation>,
    rows: Seq<SessionRow>,
    session_id: Seq<char>,
)
    requires
        relations_of(relations, rows, rows.len() as int),
    ensures
        ({
            let children = rows.filter(
                |row: SessionRow| opt_text(row.parent_session_id) == Some(session_id),
            );
            let stored = exists|place: int|
                0 <= place < rows.len() && (#[trigger] rows[place]).session_id@ == session_id;
            &&& relations.dom().contains(session_id) <==> stored || children.len() > 0
            &&& relations.dom().contains(session_id) ==> {
                &&& relations[session_id].exists == stored
                &&& relations[session_id].child_count == children.len()
                &&& !stored ==> relations[session_id].parent_session_id is None
                &&& forall|place: int|
                    0 <= place < rows.len() && (#[trigger] rows[place]).session_id@ == session_id
                        && (forall|later: int|
                        place < later < rows.len() ==> (#[trigger] rows[later]).session_id@
                            != session_id) ==> opt_text(relations[session_id].parent_session_id)
                        == opt_text(rows[place].parent_session_id)
            }
        }),
{
    children_are_counted_once(rows, session_id);
    rows_say_what_is_stored(rows, session_id, rows.len() as int);
    if relations.dom().contains(session_id) {
        assert(describes(relations[session_id], rows, session_id, rows.len() as int));
    }
}

/// What is stored of a session's place is right: it is of that session, it names the parent that
/// the session has, its root is the end of the session's way up, so many parents away as it says,
/// and it says whether another session has it as its parent.
pub proof fn link_says_its_place(
    link: ConversationLink,
    parents: Map<Seq<char>, Option<String>>,
    session_id: Seq<char>,
    child: Seq<char>,
)
    requires
        links(link, parents, session_id),
        parents.dom().contains(session_id),
    ensures
        link.session_id@ == session_id,
        opt_text(link.parent_session_id) == opt_text(parents[session_id]),
        has_depth(parents, session_id, link.depth as int),
        link.root_session_id@ == ancestor(parents, session_id, link.depth as int),
        link.parent_session_id is None ==> link.depth == 0 && link.root_session_id@ == session_id,
        link.parent_session_id is Some && link.parent_session_id->0@ != session_id ==> link.depth
            > 0,
        parents.dom().contains(child) && opt_text(parents[child]) == Some(session_id)
            ==> link.contains_subagents,
        link.contains_subagents ==> exists|other: Seq<char>| #[trigger]
            parents.dom().contains(other) && opt_text(parents[other]) == Some(session_id),
{
    assert(ancestor(parents, session_id, 0) == session_id);
    if link.parent_session_id is None {
        assert(way_ends(parents, session_id, 0));
        if link.depth > 0 {
            assert(!way_ends(parents, session_id, 0));
        }
    } else {
        assert(!way_ends(parents, session_id, 0));
    }
}

} // verus!

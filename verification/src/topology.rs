//! How sessions hang together: parents, roots and depths.

use crate::text::{copy_opt, list_holds, opt_is, opt_text, same_text, texts};
use crate::text_map::TextMap;
use vstd::prelude::*;

verus! {

/// What the store knows of a session's place among the others.
#[derive(Clone, Debug)]
pub struct ExistingSessionRelation {
    pub exists: bool,
    pub parent_session_id: Option<String>,
    pub child_count: usize,
}

/// What must be done about the stored links when a session is imported.
#[derive(Clone, Copy, Debug, PartialEq, Eq, Structural)]
pub enum TopologyMaintenance {
    Unchanged,
    InsertRootLink,
    RecomputeAll,
}

/// What must be done about the stored links when a session with this parent is imported: nothing
/// where its parent is the one that is stored, a root link where it is new and stands alone, and
/// everything anew where a link appears, disappears or changes.
pub open spec fn topology_maintenance(
    existing_relation: Option<ExistingSessionRelation>,
    existing_child_count: usize,
    parent_session_id: Option<Seq<char>>,
) -> TopologyMaintenance {
    if existing_relation is Some && existing_relation->0.exists {
        if opt_text(existing_relation->0.parent_session_id) == parent_session_id {
            TopologyMaintenance::Unchanged
        } else {
            TopologyMaintenance::RecomputeAll
        }
    } else if parent_session_id is None && existing_child_count == 0 {
        TopologyMaintenance::InsertRootLink
    } else {
        TopologyMaintenance::RecomputeAll
    }
}

/// What must be done about the stored links when a session with this parent is imported.
pub fn classify_topology_maintenance(
    existing_relation: Option<&ExistingSessionRelation>,
    existing_child_count: usize,
    parent_session_id: Option<&str>,
) -> (maintenance: TopologyMaintenance)
    ensures
        maintenance == topology_maintenance(
            match existing_relation {
                Some(relation) => Some(*relation),
                None => None,
            },
            existing_child_count,
            match parent_session_id {
                Some(parent) => Some(parent@),
                None => None,
            },
        ),
{
    match existing_relation {
        Some(relation) => {
            if relation.exists {
                let same_parent = match (&relation.parent_session_id, parent_session_id) {
                    (Some(stored), Some(parent)) => same_text(stored.as_str(), parent),
                    (None, None) => true,
                    _ => false,
                };
                if same_parent {
                    return TopologyMaintenance::Unchanged;
                } else {
                    return TopologyMaintenance::RecomputeAll;
                }
            }
        },
        None => {},
    }
    if parent_session_id.is_none() && existing_child_count == 0 {
        TopologyMaintenance::InsertRootLink
    } else {
        TopologyMaintenance::RecomputeAll
    }
}

/// What the store knows of one session's place, where it was looked up by itself: `stored_parent`
/// is there if the session is stored, and holds its parent if it has one.
pub fn relation_from_lookup(stored_parent: Option<Option<String>>, child_count: i64) -> (relation:
    ExistingSessionRelation)
    requires
        child_count <= usize::MAX,
    ensures
        relation.exists == (stored_parent is Some),
        opt_text(relation.parent_session_id) == match stored_parent {
            Some(parent) => opt_text(parent),
            None => None,
        },
        relation.child_count == if child_count < 0 {
            0
        } else {
            child_count as int
        },
{
    let count: usize = if child_count < 0 {
        0
    } else {
        child_count as usize
    };
    match stored_parent {
        Some(parent) => ExistingSessionRelation {
            exists: true,
            parent_session_id: parent,
            child_count: count,
        },
        None => ExistingSessionRelation {
            exists: false,
            parent_session_id: None,
            child_count: count,
        },
    }
}

/// A stored session and its parent.
#[derive(Clone, Debug)]
pub struct SessionRow {
    pub session_id: String,
    pub parent_session_id: Option<String>,
}

/// How many of the first `end` rows have this parent.
pub open spec fn children_of(rows: Seq<SessionRow>, parent: Seq<char>, end: int) -> int
    decreases end,
{
    if end <= 0 {
        0
    } else {
        children_of(rows, parent, end - 1) + if opt_text(rows[end - 1].parent_session_id) == Some(
            parent,
        ) {
            1int
        } else {
            0
        }
    }
}

/// Whether one of the first `end` rows is of this session.
pub open spec fn is_stored(rows: Seq<SessionRow>, session_id: Seq<char>, end: int) -> bool
    decreases end,
{
    end > 0 && (rows[end - 1].session_id@ == session_id || is_stored(rows, session_id, end - 1))
}

/// The parent in the last of the first `end` rows that is of this session.
pub open spec fn stored_parent(rows: Seq<SessionRow>, session_id: Seq<char>, end: int) -> Option<
    Seq<char>,
>
    decreases end,
{
    if end <= 0 {
        None
    } else if rows[end - 1].session_id@ == session_id {
        opt_text(rows[end - 1].parent_session_id)
    } else {
        stored_parent(rows, session_id, end - 1)
    }
}

/// Whether `relation` is what the first `end` rows say of a session.
pub open spec fn describes(
    relation: ExistingSessionRelation,
    rows: Seq<SessionRow>,
    session_id: Seq<char>,
    end: int,
) -> bool {
    relation.exists == is_stored(rows, session_id, end) && opt_text(relation.parent_session_id)
        == stored_parent(rows, session_id, end) && relation.child_count == children_of(
        rows,
        session_id,
        end,
    )
}

/// Whether `relations` is what the first `end` rows say: of each session that is stored or a
/// parent, and of no other.
pub open spec fn relations_of(
    relations: Map<Seq<char>, ExistingSessionRelation>,
    rows: Seq<SessionRow>,
    end: int,
) -> bool {
    forall|session_id: Seq<char>|
        if #[trigger] relations.dom().contains(session_id) {
            describes(relations[session_id], rows, session_id, end) && (is_stored(
                rows,
                session_id,
                end,
            ) || children_of(rows, session_id, end) > 0)
        } else {
            !is_stored(rows, session_id, end) && children_of(rows, session_id, end) == 0
        }
}

proof fn children_are_rows(rows: Seq<SessionRow>, parent: Seq<char>, end: int)
    requires
        0 <= end,
    ensures
        0 <= children_of(rows, parent, end) <= end,
    decreases end,
{
    if end > 0 {
        children_are_rows(rows, parent, end - 1);
    }
}

proof fn unknown_has_no_parent(rows: Seq<SessionRow>, session_id: Seq<char>, end: int)
    requires
        !is_stored(rows, session_id, end),
    ensures
        stored_parent(rows, session_id, end) is None,
    decreases end,
{
    if end > 0 {
        unknown_has_no_parent(rows, session_id, end - 1);
    }
}

/// What the stored rows say of each session: that it is stored, its parent, and how many sessions
/// have it as their parent.
pub fn existing_session_relations(rows: &Vec<SessionRow>) -> (relations: TextMap<
    ExistingSessionRelation,
>)
    ensures
        relations_of(relations@, rows@, rows.len() as int),
{
    let mut relations: TextMap<ExistingSessionRelation> = TextMap::new();
    let mut index: usize = 0;
    while index < rows.len()
        invariant
            index <= rows.len(),
            relations_of(relations@, rows@, index as int),
        decreases rows.len() - index,
    {
        let row = &rows[index];
        let ghost before = relations@;
        let stored_children = match relations.get(row.session_id.as_str()) {
            Some(relation) => relation.child_count,
            None => 0,
        };
        relations.insert(
            row.session_id.clone(),
            ExistingSessionRelation {
                exists: true,
                parent_session_id: copy_opt(&row.parent_session_id),
                child_count: stored_children,
            },
        );
        let ghost middle = relations@;
        match &row.parent_session_id {
            Some(parent) => {
                let relation = match relations.get(parent.as_str()) {
                    Some(relation) => {
                        proof {
                            assert(before.dom().contains(parent@) || parent@
                                == row.session_id@);
                            children_are_rows(rows@, parent@, index as int);
                        }
                        ExistingSessionRelation {
                            exists: relation.exists,
                            parent_session_id: copy_opt(&relation.parent_session_id),
                            child_count: relation.child_count + 1,
                        }
                    },
                    None => ExistingSessionRelation {
                        exists: false,
                        parent_session_id: None,
                        child_count: 1,
                    },
                };
                relations.insert(parent.clone(), relation);
            },
            None => {},
        }
        proof {
            assert forall|session_id: Seq<char>|
                if #[trigger] relations@.dom().contains(session_id) {
                    describes(relations@[session_id], rows@, session_id, index + 1) && (is_stored(
                        rows@,
                        session_id,
                        index + 1,
                    ) || children_of(rows@, session_id, index + 1) > 0)
                } else {
                    !is_stored(rows@, session_id, index + 1) && children_of(
                        rows@,
                        session_id,
                        index + 1,
                    ) == 0
                } by {
                assert(before.dom().contains(session_id) || !before.dom().contains(session_id));
                assert(middle.dom().contains(session_id) || !middle.dom().contains(session_id));
                children_are_rows(rows@, session_id, index as int);
                if !is_stored(rows@, session_id, index as int) {
                    unknown_has_no_parent(rows@, session_id, index as int);
                }
            }
        }
        index = index + 1;
    }
    relations
}

/// The parent of a session, where it is stored and has one.
pub open spec fn parent_in(parents: Map<Seq<char>, Option<String>>, session_id: Seq<char>) ->
    Option<Seq<char>> {
    if parents.dom().contains(session_id) {
        opt_text(parents[session_id])
    } else {
        None
    }
}

/// The session that is `steps` parents above another.
pub open spec fn ancestor(
    parents: Map<Seq<char>, Option<String>>,
    session_id: Seq<char>,
    steps: int,
) -> Seq<char>
    decreases steps,
{
    if steps <= 0 {
        session_id
    } else {
        parent_in(parents, ancestor(parents, session_id, steps - 1))->0
    }
}

/// Whether the way up ends after `steps` parents: there is no further parent, or the session
/// there was passed before.
pub open spec fn way_ends(
    parents: Map<Seq<char>, Option<String>>,
    session_id: Seq<char>,
    steps: int,
) -> bool {
    parent_in(parents, ancestor(parents, session_id, steps)) is None || exists|earlier: int|
        0 <= earlier < steps && #[trigger] ancestor(parents, session_id, earlier) == ancestor(
            parents,
            session_id,
            steps,
        )
}

/// Whether a session's way up is `depth` parents long: it ends there and not before.
pub open spec fn has_depth(
    parents: Map<Seq<char>, Option<String>>,
    session_id: Seq<char>,
    depth: int,
) -> bool {
    0 <= depth && way_ends(parents, session_id, depth) && forall|steps: int|
        0 <= steps < depth ==> !#[trigger] way_ends(parents, session_id, steps)
}

/// The root of a session and its depth below it: the end of its way up. A way that comes back on
/// itself ends where it does.
pub fn resolve_root(start_session_id: &str, parents: &TextMap<Option<String>>) -> (result: (
    String,
    usize,
))
    ensures
        has_depth(parents@, start_session_id@, result.1 as int),
        result.0@ == ancestor(parents@, start_session_id@, result.1 as int),
        result.1 <= parents@.len(),
{
    let total = parents.len();
    let mut current = start_session_id.to_owned();
    let mut seen: Vec<String> = Vec::new();
    loop
        invariant
            total == parents@.len(),
            parents@.dom().finite(),
            current@ == ancestor(parents@, start_session_id@, seen.len() as int),
            seen.len() <= total,
            forall|step: int|
                0 <= step < seen.len() ==> texts(seen@)[step] == #[trigger] ancestor(
                    parents@,
                    start_session_id@,
                    step,
                ),
            forall|step: int|
                0 <= step < seen.len() ==> parents@.dom().contains(
                    #[trigger] texts(seen@)[step],
                ),
            forall|steps: int|
                0 <= steps < seen.len() ==> !#[trigger] way_ends(
                    parents@,
                    start_session_id@,
                    steps,
                ),
        decreases total - seen.len(),
    {
        let ghost depth = seen.len() as int;
        let parent = match parents.get(current.as_str()) {
            Some(Some(parent)) => parent,
            _ => {
                return (current, seen.len());
            },
        };
        if list_holds(&seen, current.as_str()) {
            proof {
                let place = choose|place: int|
                    0 <= place < texts(seen@).len() && texts(seen@)[place] == current@;
                assert(ancestor(parents@, start_session_id@, place) == current@);
            }
            return (current, seen.len());
        }
        proof {
            assert(!way_ends(parents@, start_session_id@, depth)) by {
                assert forall|earlier: int| 0 <= earlier < depth implies #[trigger] ancestor(
                    parents@,
                    start_session_id@,
                    earlier,
                ) != current@ by {
                    assert(texts(seen@)[earlier] != current@);
                }
            }
        }
        let ghost before = texts(seen@);
        seen.push(current);
        proof {
            assert(texts(seen@) =~= before.push(current@));
            distinct_keys_fit(parents@, texts(seen@), start_session_id@);
            assert(ancestor(parents@, start_session_id@, depth + 1) == parent@);
        }
        if !parents.holds(parent.as_str()) {
            return (parent.clone(), seen.len());
        }
        current = parent.clone();
    }
}

/// The sessions on a way up that has not ended are different ones, so there are no more of them
/// than there are stored.
proof fn distinct_keys_fit(
    parents: Map<Seq<char>, Option<String>>,
    passed: Seq<Seq<char>>,
    start: Seq<char>,
)
    requires
        parents.dom().finite(),
        forall|step: int|
            0 <= step < passed.len() ==> passed[step] == #[trigger] ancestor(parents, start, step),
        forall|step: int|
            0 <= step < passed.len() ==> parents.dom().contains(#[trigger] passed[step]),
        forall|steps: int|
            0 <= steps < passed.len() ==> !#[trigger] way_ends(parents, start, steps),
    ensures
        passed.len() <= parents.len(),
{
    assert forall|left: int, right: int| 0 <= left < right < passed.len() implies passed[left]
        != passed[right] by {
        assert(!way_ends(parents, start, right));
        assert(ancestor(parents, start, left) == passed[left]);
        assert(ancestor(parents, start, right) == passed[right]);
    }
    assert(passed.no_duplicates());
    passed.unique_seq_to_set();
    assert(passed.to_set().subset_of(parents.dom()));
    vstd::set_lib::lemma_len_subset(passed.to_set(), parents.dom());
}

/// A session whose way up ends at a session without a parent has that session as its root, and
/// so has that session itself, at depth zero.
pub proof fn root_is_its_own_root(
    parents: Map<Seq<char>, Option<String>>,
    session_id: Seq<char>,
    depth: int,
)
    requires
        has_depth(parents, session_id, depth),
        parent_in(parents, ancestor(parents, session_id, depth)) is None,
    ensures
        has_depth(parents, ancestor(parents, session_id, depth), 0),
        ancestor(parents, ancestor(parents, session_id, depth), 0) == ancestor(
            parents,
            session_id,
            depth,
        ),
{
}

proof fn way_from_parent(
    parents: Map<Seq<char>, Option<String>>,
    session_id: Seq<char>,
    steps: int,
)
    requires
        parent_in(parents, session_id) is Some,
        0 <= steps,
    ensures
        ancestor(parents, session_id, steps + 1) == ancestor(
            parents,
            parent_in(parents, session_id)->0,
            steps,
        ),
    decreases steps,
{
    if steps > 0 {
        way_from_parent(parents, session_id, steps - 1);
    } else {
        assert(ancestor(parents, session_id, 0) == session_id);
    }
}

/// A session has the root of its parent and stands one below it, unless the parent's way up comes
/// back to the session itself.
pub proof fn child_shares_root(
    parents: Map<Seq<char>, Option<String>>,
    session_id: Seq<char>,
    parent_depth: int,
)
    requires
        parent_in(parents, session_id) is Some,
        has_depth(parents, parent_in(parents, session_id)->0, parent_depth),
        forall|steps: int|
            0 <= steps <= parent_depth ==> #[trigger] ancestor(
                parents,
                parent_in(parents, session_id)->0,
                steps,
            ) != session_id,
    ensures
        has_depth(parents, session_id, parent_depth + 1),
        ancestor(parents, session_id, parent_depth + 1) == ancestor(
            parents,
            parent_in(parents, session_id)->0,
            parent_depth,
        ),
{
    let parent = parent_in(parents, session_id)->0;
    way_from_parent(parents, session_id, parent_depth);
    assert forall|steps: int| 0 <= steps <= parent_depth implies way_ends(
        parents,
        session_id,
        steps + 1,
    ) == #[trigger] way_ends(parents, parent, steps) by {
        way_from_parent(parents, session_id, steps);
        if way_ends(parents, parent, steps) && parent_in(
            parents,
            ancestor(parents, parent, steps),
        ) is Some {
            let earlier = choose|earlier: int|
                0 <= earlier < steps && #[trigger] ancestor(parents, parent, earlier) == ancestor(
                    parents,
                    parent,
                    steps,
                );
            way_from_parent(parents, session_id, earlier);
            assert(ancestor(parents, session_id, earlier + 1) == ancestor(
                parents,
                session_id,
                steps + 1,
            ));
        }
        if way_ends(parents, session_id, steps + 1) && parent_in(
            parents,
            ancestor(parents, session_id, steps + 1),
        ) is Some {
            let earlier = choose|earlier: int|
                0 <= earlier < steps + 1 && #[trigger] ancestor(parents, session_id, earlier)
                    == ancestor(parents, session_id, steps + 1);
            if earlier > 0 {
                way_from_parent(parents, session_id, earlier - 1);
                assert(ancestor(parents, parent, earlier - 1) == ancestor(
                    parents,
                    parent,
                    steps,
                ));
            }
        }
    }
    assert(!way_ends(parents, session_id, 0));
    assert forall|steps: int| 0 <= steps < parent_depth + 1 implies !#[trigger] way_ends(
        parents,
        session_id,
        steps,
    ) by {
        if steps > 0 {
            assert(way_ends(parents, session_id, (steps - 1) + 1) == way_ends(
                parents,
                parent,
                steps - 1,
            ));
        }
    }
}

/// What is stored of the place of one session.
#[derive(Clone, Debug)]
pub struct ConversationLink {
    pub session_id: String,
    pub root_session_id: String,
    pub parent_session_id: Option<String>,
    pub depth: usize,
    pub contains_subagents: bool,
}

/// Whether a session is the parent of another.
pub open spec fn has_children(parents: Map<Seq<char>, Option<String>>, session_id: Seq<char>) ->
    bool {
    exists|child: Seq<char>| #[trigger]
        parents.dom().contains(child) && opt_text(parents[child]) == Some(session_id)
}

/// Whether `link` is what must be stored of the session `session_id`.
pub open spec fn links(
    link: ConversationLink,
    parents: Map<Seq<char>, Option<String>>,
    session_id: Seq<char>,
) -> bool {
    link.session_id@ == session_id && has_depth(parents, session_id, link.depth as int)
        && link.root_session_id@ == ancestor(parents, session_id, link.depth as int) && opt_text(
        link.parent_session_id,
    ) == parent_in(parents, session_id) && link.contains_subagents == has_children(
        parents,
        session_id,
    )
}

fn is_parent(parents: &TextMap<Option<String>>, session_id: &str) -> (found: bool)
    ensures
        found == has_children(parents@, session_id@),
{
    let count = parents.len();
    let mut index: usize = 0;
    while index < count
        invariant
            index <= count,
            count == parents.order().len(),
            forall|key: Seq<char>| parents@.dom().contains(key) <==> parents.order().contains(key),
            forall|seen: int|
                0 <= seen < index ==> opt_text(parents@[#[trigger] parents.order()[seen]]) != Some(
                    session_id@,
                ),
        decreases count - index,
    {
        let entry = parents.entry(index);
        if opt_is(entry.1, session_id) {
            proof {
                assert(parents@.dom().contains(entry.0@));
            }
            return true;
        }
        index = index + 1;
    }
    proof {
        assert forall|child: Seq<char>| #[trigger] parents@.dom().contains(child) implies opt_text(
            parents@[child],
        ) != Some(session_id@) by {
            assert(parents.order().contains(child));
            let place = choose|place: int|
                0 <= place < parents.order().len() && parents.order()[place] == child;
            assert(parents.order()[place] == child);
        }
    }
    false
}

/// What must be stored of the place of every session.
pub fn conversation_links(parents: &TextMap<Option<String>>) -> (result: Vec<ConversationLink>)
    ensures
        result.len() == parents.order().len(),
        forall|index: int|
            0 <= index < result.len() ==> links(
                #[trigger] result[index],
                parents@,
                parents.order()[index],
            ),
{
    let count = parents.len();
    let mut result: Vec<ConversationLink> = Vec::new();
    let mut index: usize = 0;
    while index < count
        invariant
            index <= count,
            count == parents.order().len(),
            result.len() == index,
            forall|done: int|
                0 <= done < index ==> links(
                    #[trigger] result[done],
                    parents@,
                    parents.order()[done],
                ),
        decreases count - index,
    {
        let entry = parents.entry(index);
        let root = resolve_root(entry.0, parents);
        result.push(
            ConversationLink {
                session_id: entry.0.to_owned(),
                root_session_id: root.0,
                parent_session_id: copy_opt(entry.1),
                depth: root.1,
                contains_subagents: is_parent(parents, entry.0),
            },
        );
        index = index + 1;
    }
    result
}

/// The parents that stored rows give; the last row of a session counts.
pub fn parents_of(rows: &Vec<SessionRow>) -> (parents: TextMap<Option<String>>)
    ensures
        forall|session_id: Seq<char>|
            #![trigger parents@.dom().contains(session_id)]
            parents@.dom().contains(session_id) == is_stored(
                rows@,
                session_id,
                rows.len() as int,
            ) && parent_in(parents@, session_id) == stored_parent(
                rows@,
                session_id,
                rows.len() as int,
            ),
{
    let mut parents: TextMap<Option<String>> = TextMap::new();
    let mut index: usize = 0;
    while index < rows.len()
        invariant
            index <= rows.len(),
            forall|session_id: Seq<char>|
                #![trigger parents@.dom().contains(session_id)]
                parents@.dom().contains(session_id) == is_stored(rows@, session_id, index as int)
                    && parent_in(parents@, session_id) == stored_parent(
                    rows@,
                    session_id,
                    index as int,
                ),
        decreases rows.len() - index,
    {
        let ghost before = parents@;
        let row = &rows[index];
        parents.insert(row.session_id.clone(), copy_opt(&row.parent_session_id));
        proof {
            assert forall|session_id: Seq<char>|
                #![trigger parents@.dom().contains(session_id)]
                parents@.dom().contains(session_id) == is_stored(rows@, session_id, index + 1)
                    && parent_in(parents@, session_id) == stored_parent(
                    rows@,
                    session_id,
                    index + 1,
                ) by {
                assert(before.dom().contains(session_id) || !before.dom().contains(session_id));
            }
        }
        index = index + 1;
    }
    parents
}

/// What a partial set of stored rows says of each of its sessions. Children are not counted: the
/// rows that name them may be missing.
pub fn incremental_session_relations(rows: &Vec<SessionRow>) -> (relations: TextMap<
    ExistingSessionRelation,
>)
    ensures
        forall|session_id: Seq<char>|
            if #[trigger] relations@.dom().contains(session_id) {
                let relation = relations@[session_id];
                is_stored(rows@, session_id, rows.len() as int) && relation.exists
                    && relation.child_count == 0 && opt_text(relation.parent_session_id)
                    == stored_parent(rows@, session_id, rows.len() as int)
            } else {
                !is_stored(rows@, session_id, rows.len() as int)
            },
{
    let mut relations: TextMap<ExistingSessionRelation> = TextMap::new();
    let mut index: usize = 0;
    while index < rows.len()
        invariant
            index <= rows.len(),
            forall|session_id: Seq<char>|
                if #[trigger] relations@.dom().contains(session_id) {
                    let relation = relations@[session_id];
                    is_stored(rows@, session_id, index as int) && relation.exists
                        && relation.child_count == 0 && opt_text(relation.parent_session_id)
                        == stored_parent(rows@, session_id, index as int)
                } else {
                    !is_stored(rows@, session_id, index as int)
                },
        decreases rows.len() - index,
    {
        let ghost before = relations@;
        let row = &rows[index];
        relations.insert(
            row.session_id.clone(),
            ExistingSessionRelation {
                exists: true,
                parent_session_id: copy_opt(&row.parent_session_id),
                child_count: 0,
            },
        );
        proof {
            assert forall|session_id: Seq<char>|
                if #[trigger] relations@.dom().contains(session_id) {
                    let relation = relations@[session_id];
                    is_stored(rows@, session_id, index + 1) && relation.exists
                        && relation.child_count == 0 && opt_text(relation.parent_session_id)
                        == stored_parent(rows@, session_id, index + 1)
                } else {
                    !is_stored(rows@, session_id, index + 1)
                } by {
                assert(before.dom().contains(session_id) || !before.dom().contains(session_id));
            }
        }
        index = index + 1;
    }
    relations
}

} // verus!

//! The order in which a scan goes through files: by their paths.

use crate::import_state::{SessionFile, SessionFileView};
use crate::paths::{order_of_paths, path_order, PathOrder};
use vstd::multiset::Multiset;
use vstd::prelude::*;
use vstd::seq_lib::{lemma_multiset_commutative, to_multiset_contains};

verus! {

/// What each file of a list holds.
pub open spec fn file_views(files: Seq<SessionFile>) -> Seq<SessionFileView> {
    files.map_values(|file: SessionFile| file@)
}

/// Whether a file comes before another by its path.
pub open spec fn is_before(left: SessionFileView, right: SessionFileView) -> bool {
    order_of_paths(left.source_path, right.source_path) == PathOrder::Before
}

/// Whether no file comes before one that stands in front of it.
pub open spec fn in_path_order(files: Seq<SessionFileView>) -> bool {
    forall|front: int, back: int|
        0 <= front < back < files.len() ==> !is_before(
            #[trigger] files[back],
            #[trigger] files[front],
        )
}

/// Whether `sorted` are the same files in the order of their paths.
pub open spec fn sorts(files: Seq<SessionFileView>, sorted: Seq<SessionFileView>) -> bool {
    sorted.to_multiset() == files.to_multiset() && in_path_order(sorted)
}

/// Whether a file may follow another: it does not come before it, and neither does what does not
/// come before itself.
spec fn may_follow(front: SessionFileView, back: SessionFileView) -> bool {
    !is_before(back, front) && forall|third: Seq<char>|
        order_of_paths(third, back.source_path) != PathOrder::Before
            ==> #[trigger] order_of_paths(third, front.source_path) != PathOrder::Before
}

/// Whether each file may follow the one right in front of it.
spec fn is_chain(files: Seq<SessionFileView>) -> bool {
    forall|back: int|
        #![trigger files[back]]
        0 < back < files.len() ==> may_follow(files[back - 1], files[back])
}

proof fn chain_is_in_order(files: Seq<SessionFileView>, front: int, back: int)
    requires
        is_chain(files),
        0 <= front < back < files.len(),
    ensures
        !is_before(files[back], files[front]),
    decreases back - front,
{
    assert(may_follow(files[front + 1 - 1], files[front + 1]));
    if front + 1 < back {
        chain_is_in_order(files, front + 1, back);
        assert(order_of_paths(files[back].source_path, files[front + 1].source_path)
            != PathOrder::Before);
    }
}

proof fn takes_one(files: Seq<SessionFileView>, index: int)
    requires
        0 <= index < files.len(),
    ensures
        files.take(index + 1).to_multiset() == files.take(index).to_multiset().insert(files[index]),
{
    broadcast use vstd::seq_lib::group_to_multiset_ensures;

    assert(files.take(index + 1) =~= files.take(index).push(files[index]));
}

proof fn adds_one(
    left: Multiset<SessionFileView>,
    right: Multiset<SessionFileView>,
    file: SessionFileView,
)
    ensures
        left.insert(file).add(right) == left.add(right).insert(file),
        left.add(right.insert(file)) == left.add(right).insert(file),
{
    assert(left.insert(file).add(right) =~= left.add(right).insert(file));
    assert(left.add(right.insert(file)) =~= left.add(right).insert(file));
}

proof fn pushes_one(files: Seq<SessionFileView>, file: SessionFileView)
    requires
        is_chain(files),
        files.len() > 0 ==> may_follow(files.last(), file),
    ensures
        is_chain(files.push(file)),
        files.push(file).to_multiset() == files.to_multiset().insert(file),
{
    broadcast use vstd::seq_lib::group_to_multiset_ensures;

    let longer = files.push(file);
    assert forall|back: int|
        #![trigger longer[back]]
        0 < back < longer.len() implies may_follow(longer[back - 1], longer[back]) by {
        if back < files.len() {
            assert(may_follow(files[back - 1], files[back]));
        }
    }
}

/// Two lists of files in order as one. Of two files with the same path that of `left` comes first.
fn merge(left: &Vec<SessionFile>, right: &Vec<SessionFile>) -> (merged: Vec<SessionFile>)
    requires
        is_chain(file_views(left@)),
        is_chain(file_views(right@)),
    ensures
        is_chain(file_views(merged@)),
        file_views(merged@).to_multiset() == file_views(left@).to_multiset().add(
            file_views(right@).to_multiset(),
        ),
{
    let ghost lefts = file_views(left@);
    let ghost rights = file_views(right@);
    let mut merged: Vec<SessionFile> = Vec::new();
    let mut from_left: usize = 0;
    let mut from_right: usize = 0;
    proof {
        assert(file_views(merged@) =~= lefts.take(0) + rights.take(0));
        lemma_multiset_commutative(lefts.take(0), rights.take(0));
    }
    while from_left < left.len() || from_right < right.len()
        invariant
            from_left <= left.len(),
            from_right <= right.len(),
            lefts == file_views(left@),
            rights == file_views(right@),
            is_chain(lefts),
            is_chain(rights),
            is_chain(file_views(merged@)),
            file_views(merged@).to_multiset() == lefts.take(
                from_left as int,
            ).to_multiset().add(rights.take(from_right as int).to_multiset()),
            merged.len() > 0 && from_left < left.len() ==> may_follow(
                file_views(merged@).last(),
                lefts[from_left as int],
            ),
            merged.len() > 0 && from_right < right.len() ==> may_follow(
                file_views(merged@).last(),
                rights[from_right as int],
            ),
        decreases left.len() - from_left + right.len() - from_right,
    {
        let take_right = if from_left == left.len() {
            true
        } else if from_right == right.len() {
            false
        } else {
            let order = path_order(
                right[from_right].source_path.as_str(),
                left[from_left].source_path.as_str(),
            );
            proof {
                if order == PathOrder::Before {
                    assert(may_follow(rights[from_right as int], lefts[from_left as int]));
                } else {
                    assert(may_follow(lefts[from_left as int], rights[from_right as int]));
                }
            }
            order == PathOrder::Before
        };
        let ghost before = merged@;
        let ghost taken_left = lefts.take(from_left as int).to_multiset();
        let ghost taken_right = rights.take(from_right as int).to_multiset();
        if take_right {
            merged.push(right[from_right].copy());
            proof {
                let file = rights[from_right as int];
                assert(file_views(merged@) =~= file_views(before).push(file));
                pushes_one(file_views(before), file);
                takes_one(rights, from_right as int);
                adds_one(taken_left, taken_right, file);
                if from_right + 1 < right.len() {
                    assert(may_follow(rights[from_right + 1 - 1], rights[from_right + 1]));
                }
            }
            from_right = from_right + 1;
        } else {
            merged.push(left[from_left].copy());
            proof {
                let file = lefts[from_left as int];
                assert(file_views(merged@) =~= file_views(before).push(file));
                pushes_one(file_views(before), file);
                takes_one(lefts, from_left as int);
                adds_one(taken_left, taken_right, file);
                if from_left + 1 < left.len() {
                    assert(may_follow(lefts[from_left + 1 - 1], lefts[from_left + 1]));
                }
            }
            from_left = from_left + 1;
        }
    }
    proof {
        assert(lefts.take(from_left as int) =~= lefts);
        assert(rights.take(from_right as int) =~= rights);
    }
    merged
}

/// The files in the order of their paths, each as often as before, as a chain.
fn sort_chain(files: Vec<SessionFile>) -> (sorted: Vec<SessionFile>)
    ensures
        is_chain(file_views(sorted@)),
        file_views(sorted@).to_multiset() == file_views(files@).to_multiset(),
    decreases files.len(),
{
    if files.len() < 2 {
        return files;
    }
    let ghost shown = file_views(files@);
    let mut front = files;
    let middle: usize = front.len() / 2;
    let back = front.split_off(middle);
    proof {
        assert(shown =~= file_views(front@) + file_views(back@));
        lemma_multiset_commutative(file_views(front@), file_views(back@));
    }
    let front = sort_chain(front);
    let back = sort_chain(back);
    merge(&front, &back)
}

/// The files in the order of their paths, each as often as before.
pub fn sort_by_path(files: Vec<SessionFile>) -> (sorted: Vec<SessionFile>)
    ensures
        sorts(file_views(files@), file_views(sorted@)),
{
    let sorted = sort_chain(files);
    proof {
        let shown = file_views(sorted@);
        assert forall|front: int, back: int| 0 <= front < back < shown.len() implies !is_before(
            #[trigger] shown[back],
            #[trigger] shown[front],
        ) by {
            chain_is_in_order(shown, front, back);
        }
    }
    sorted
}

/// Files with different paths still have different paths once they are sorted.
pub proof fn sorting_keeps_paths_apart(
    files: Seq<SessionFileView>,
    sorted: Seq<SessionFileView>,
    left: int,
    right: int,
)
    requires
        sorts(files, sorted),
        forall|one: int, other: int|
            0 <= one < other < files.len() ==> (#[trigger] files[one]).source_path != (
            #[trigger] files[other]).source_path,
        0 <= left < right < sorted.len(),
    ensures
        sorted[left].source_path != sorted[right].source_path,
{
    files.lemma_multiset_has_no_duplicates();
    sorted.lemma_multiset_has_no_duplicates_conv();
    assert(sorted.contains(sorted[left]) && sorted.contains(sorted[right]));
    to_multiset_contains(sorted, sorted[left]);
    to_multiset_contains(sorted, sorted[right]);
    to_multiset_contains(files, sorted[left]);
    to_multiset_contains(files, sorted[right]);
    assert(files.contains(sorted[left]) && files.contains(sorted[right]));
    let one = choose|one: int| 0 <= one < files.len() && files[one] == sorted[left];
    let other = choose|other: int| 0 <= other < files.len() && files[other] == sorted[right];
    assert(one != other);
    if one < other {
        assert(files[one].source_path != files[other].source_path);
    } else {
        assert(files[other].source_path != files[one].source_path);
    }
}

} // verus!

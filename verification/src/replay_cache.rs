//! A small cache of the parents' readings that a scan has already read.

use crate::capacity::{reserves_bytes, text_capacity};
use crate::estimates::{
    capped, capped_product, estimated_usage_snapshots_bytes, is_estimate, snapshots_texts,
};
use crate::models::UsageSnapshot;
use crate::text::texts;
use crate::text_map::TextMap;
use vstd::layout::size_of as layout_size;
use vstd::prelude::*;

verus! {

/// How many parents the cache holds at most.
pub const PARENT_REPLAY_CACHE_MAX_ENTRIES: usize = 4;

/// How many bytes the cache takes up at most.
pub const PARENT_REPLAY_CACHE_MAX_BYTES: usize = 262_144;

/// What is known of one parent: its readings, or that there are none to be had.
#[derive(Debug)]
pub struct ParentReplayCacheEntry {
    pub snapshots: Option<Vec<UsageSnapshot>>,
    pub estimated_bytes: usize,
}

/// The cache. What came first leaves first.
#[derive(Debug)]
pub struct ParentReplayCache {
    entries: TextMap<ParentReplayCacheEntry>,
    insertion_order: Vec<String>,
    pub estimated_bytes: usize,
    evictions: usize,
    oversized_bypasses: usize,
}

/// What a `ParentReplayCache` holds.
#[verifier::ext_equal]
pub struct ReplayCacheView {
    pub entries: Map<Seq<char>, ParentReplayCacheEntry>,
    pub order: Seq<Seq<char>>,
    pub estimated_bytes: usize,
    pub evictions: usize,
    pub oversized_bypasses: usize,
}

impl View for ParentReplayCache {
    type V = ReplayCacheView;

    closed spec fn view(&self) -> ReplayCacheView {
        ReplayCacheView {
            entries: self.entries@,
            order: texts(self.insertion_order@),
            estimated_bytes: self.estimated_bytes,
            evictions: self.evictions,
            oversized_bypasses: self.oversized_bypasses,
        }
    }
}

/// The estimates of the entries that a list of keys names, taken together.
pub open spec fn listed_bytes(
    entries: Map<Seq<char>, ParentReplayCacheEntry>,
    order: Seq<Seq<char>>,
) -> int
    decreases order.len(),
{
    if order.len() == 0 {
        0
    } else {
        entries[order[0]].estimated_bytes + listed_bytes(entries, order.drop_first())
    }
}

/// Whether every entry of `part`, but for `extra`, is one of `whole`.
pub open spec fn is_part_of(
    part: Map<Seq<char>, ParentReplayCacheEntry>,
    whole: Map<Seq<char>, ParentReplayCacheEntry>,
    extra: Option<Seq<char>>,
) -> bool {
    forall|key: Seq<char>| #[trigger]
        part.dom().contains(key) && Some(key) != extra ==> whole.dom().contains(key) && part[key]
            == whole[key]
}

impl ReplayCacheView {
    /// Whether there is no room yet for an entry of `bytes` bytes.
    pub open spec fn is_full_for(self, bytes: usize) -> bool {
        self.entries.len() >= PARENT_REPLAY_CACHE_MAX_ENTRIES || self.estimated_bytes + bytes
            > PARENT_REPLAY_CACHE_MAX_BYTES
    }

    /// The cache without what came first.
    pub open spec fn without_oldest(self) -> ReplayCacheView {
        let oldest = self.order[0];
        if self.entries.dom().contains(oldest) {
            ReplayCacheView {
                entries: self.entries.remove(oldest),
                order: self.order.drop_first(),
                estimated_bytes: self.estimated_bytes.saturating_sub(
                    self.entries[oldest].estimated_bytes,
                ),
                evictions: self.evictions.wrapping_add(1),
                ..self
            }
        } else {
            ReplayCacheView { order: self.order.drop_first(), ..self }
        }
    }

    /// The cache once there is room for an entry of `bytes` bytes, or nothing left to remove.
    pub open spec fn with_room_for(self, bytes: usize) -> ReplayCacheView
        decreases self.order.len(),
    {
        if self.is_full_for(bytes) && self.order.len() > 0 {
            self.without_oldest().with_room_for(bytes)
        } else {
            self
        }
    }

    /// The cache with one more entry, for which it makes room. An entry that is larger than the
    /// whole cache is passed over, and nothing is removed for it.
    pub open spec fn with_entry(
        self,
        session_id: Seq<char>,
        entry: ParentReplayCacheEntry,
    ) -> ReplayCacheView {
        let bytes = entry.estimated_bytes;
        if bytes > PARENT_REPLAY_CACHE_MAX_BYTES {
            ReplayCacheView {
                oversized_bypasses: self.oversized_bypasses.wrapping_add(1),
                ..self
            }
        } else {
            let roomy = self.with_room_for(bytes);
            ReplayCacheView {
                entries: roomy.entries.insert(session_id, entry),
                order: roomy.order.push(session_id),
                estimated_bytes: roomy.estimated_bytes.saturating_add(bytes),
                ..roomy
            }
        }
    }

    /// Whether the cache keeps its books: each entry is listed once, and the estimate is that of
    /// the entries.
    pub open spec fn is_consistent(self) -> bool {
        &&& self.order.no_duplicates()
        &&& forall|key: Seq<char>| self.entries.dom().contains(key) <==> self.order.contains(key)
        &&& self.estimated_bytes == listed_bytes(self.entries, self.order)
        &&& self.entries.dom().finite()
        &&& self.entries.len() == self.order.len()
    }

    /// Whether the cache keeps its limits.
    pub open spec fn is_within_limits(self) -> bool {
        self.entries.len() <= PARENT_REPLAY_CACHE_MAX_ENTRIES && self.estimated_bytes
            <= PARENT_REPLAY_CACHE_MAX_BYTES
    }
}

pub(crate) proof fn listed_bytes_of_others(
    entries: Map<Seq<char>, ParentReplayCacheEntry>,
    others: Map<Seq<char>, ParentReplayCacheEntry>,
    order: Seq<Seq<char>>,
)
    requires
        forall|index: int|
            0 <= index < order.len() ==> entries[#[trigger] order[index]] == others[order[index]],
    ensures
        listed_bytes(entries, order) == listed_bytes(others, order),
    decreases order.len(),
{
    if order.len() > 0 {
        assert(entries[order[0]] == others[order[0]]);
        assert forall|index: int| 0 <= index < order.drop_first().len() implies entries[
        #[trigger] order.drop_first()[index]] == others[order.drop_first()[index]] by {
            assert(order.drop_first()[index] == order[index + 1]);
        }
        listed_bytes_of_others(entries, others, order.drop_first());
    }
}

proof fn listed_bytes_of_more(
    entries: Map<Seq<char>, ParentReplayCacheEntry>,
    order: Seq<Seq<char>>,
    key: Seq<char>,
)
    ensures
        listed_bytes(entries, order.push(key)) == listed_bytes(entries, order)
            + entries[key].estimated_bytes,
        listed_bytes(entries, order) >= 0,
    decreases order.len(),
{
    if order.len() > 0 {
        listed_bytes_of_more(entries, order.drop_first(), key);
        assert(order.push(key).drop_first() =~= order.drop_first().push(key));
    } else {
        assert(order.push(key).drop_first() =~= Seq::empty());
        assert(listed_bytes(entries, Seq::empty()) == 0);
    }
}

pub(crate) proof fn removal_keeps_books(cache: ReplayCacheView)
    requires
        cache.is_consistent(),
        cache.order.len() > 0,
    ensures
        cache.without_oldest().is_consistent(),
        cache.without_oldest().estimated_bytes <= cache.estimated_bytes,
{
    let oldest = cache.order[0];
    let rest = cache.order.drop_first();
    assert(cache.order.contains(oldest));
    let next = cache.without_oldest();
    assert forall|index: int| 0 <= index < rest.len() implies cache.entries[
    #[trigger] rest[index]] == next.entries[rest[index]] by {
        assert(rest[index] == cache.order[index + 1]);
    }
    listed_bytes_of_others(cache.entries, next.entries, rest);
    listed_bytes_of_more(cache.entries, rest, oldest);
    assert forall|key: Seq<char>| next.entries.dom().contains(key) <==> rest.contains(key) by {
        if rest.contains(key) {
            let place = choose|place: int| 0 <= place < rest.len() && rest[place] == key;
            assert(cache.order[place + 1] == key);
            assert(cache.order.contains(key));
        }
        if cache.order.contains(key) && key != oldest {
            let place = choose|place: int|
                0 <= place < cache.order.len() && cache.order[place] == key;
            assert(rest[place - 1] == key);
        }
    }
}

proof fn making_room_keeps_books(cache: ReplayCacheView, bytes: usize)
    requires
        cache.is_consistent(),
        bytes <= PARENT_REPLAY_CACHE_MAX_BYTES,
    ensures
        cache.with_room_for(bytes).is_consistent(),
        !cache.with_room_for(bytes).is_full_for(bytes),
        is_part_of(cache.with_room_for(bytes).entries, cache.entries, None),
    decreases cache.order.len(),
{
    if cache.is_full_for(bytes) {
        if cache.order.len() == 0 {
            assert(listed_bytes(cache.entries, cache.order) == 0);
        } else {
            removal_keeps_books(cache);
            making_room_keeps_books(cache.without_oldest(), bytes);
            let next = cache.without_oldest();
            let last = cache.with_room_for(bytes);
            assert forall|key: Seq<char>| #[trigger] last.entries.dom().contains(key) implies
                cache.entries.dom().contains(key) && last.entries[key] == cache.entries[key] by {
                assert(next.entries.dom().contains(key));
            }
        }
    }
}

/// A cache that keeps its books and its limits does so with one more entry, if the parent was not
/// there before. The new entry is there afterwards unless it is larger than the whole cache, and
/// what else is there was there before.
pub proof fn cache_stays_within_limits(
    cache: ReplayCacheView,
    session_id: Seq<char>,
    entry: ParentReplayCacheEntry,
)
    requires
        cache.is_consistent(),
        cache.is_within_limits(),
        !cache.entries.dom().contains(session_id),
    ensures
        cache.with_entry(session_id, entry).is_consistent(),
        cache.with_entry(session_id, entry).is_within_limits(),
        entry.estimated_bytes <= PARENT_REPLAY_CACHE_MAX_BYTES ==> cache.with_entry(
            session_id,
            entry,
        ).entries[session_id] == entry && cache.with_entry(
            session_id,
            entry,
        ).entries.dom().contains(session_id),
        entry.estimated_bytes > PARENT_REPLAY_CACHE_MAX_BYTES ==> cache.with_entry(
            session_id,
            entry,
        ).entries == cache.entries,
        is_part_of(
            cache.with_entry(session_id, entry).entries,
            cache.entries,
            Some(session_id),
        ),
{
    let bytes = entry.estimated_bytes;
    if bytes <= PARENT_REPLAY_CACHE_MAX_BYTES {
        making_room_keeps_books(cache, bytes);
        let roomy = cache.with_room_for(bytes);
        let next = cache.with_entry(session_id, entry);
        assert(!roomy.entries.dom().contains(session_id));
        assert(!roomy.order.contains(session_id));
        assert forall|key: Seq<char>| #[trigger]
            next.entries.dom().contains(key) && key != session_id implies
            cache.entries.dom().contains(key) && next.entries[key] == cache.entries[key] by {
            assert(roomy.entries.dom().contains(key));
        }
        assert forall|index: int| 0 <= index < roomy.order.len() implies roomy.entries[
        #[trigger] roomy.order[index]] == next.entries[roomy.order[index]] by {
            assert(roomy.order.contains(roomy.order[index]));
        }
        listed_bytes_of_others(roomy.entries, next.entries, roomy.order);
        listed_bytes_of_more(next.entries, roomy.order, session_id);
        assert forall|key: Seq<char>| next.entries.dom().contains(key) <==> next.order.contains(
            key,
        ) by {
            if roomy.order.contains(key) {
                let place = choose|place: int|
                    0 <= place < roomy.order.len() && roomy.order[place] == key;
                assert(next.order[place] == key);
            }
            assert(next.order[roomy.order.len() as int] == session_id);
        }
    }
}

impl ParentReplayCache {
    /// An empty cache.
    pub fn new() -> (cache: ParentReplayCache)
        ensures
            cache@ == (ReplayCacheView {
                entries: Map::empty(),
                order: Seq::empty(),
                estimated_bytes: 0,
                evictions: 0,
                oversized_bypasses: 0,
            }),
            cache@.is_consistent(),
            cache@.is_within_limits(),
    {
        let cache = ParentReplayCache {
            entries: TextMap::new(),
            insertion_order: Vec::new(),
            estimated_bytes: 0,
            evictions: 0,
            oversized_bypasses: 0,
        };
        proof {
            assert(cache@.order =~= Seq::empty());
        }
        cache
    }

    /// What is known of a parent: nothing yet, that it has no readings to be had, or its readings.
    pub fn get(&self, session_id: &str) -> (found: Option<&Option<Vec<UsageSnapshot>>>)
        ensures
            match found {
                Some(snapshots) => self@.entries.dom().contains(session_id@)
                    && self@.entries[session_id@].snapshots == *snapshots,
                None => !self@.entries.dom().contains(session_id@),
            },
    {
        match self.entries.get(session_id) {
            Some(entry) => Some(&entry.snapshots),
            None => None,
        }
    }

    /// Removes what came first.
    fn remove_oldest(&mut self)
        requires
            old(self)@.order.len() > 0,
        ensures
            final(self)@ == old(self)@.without_oldest(),
    {
        let ghost before = self.insertion_order@;
        let oldest = self.insertion_order.remove(0);
        proof {
            assert(texts(self.insertion_order@) =~= texts(before).drop_first());
            assert(texts(before)[0] == oldest@);
        }
        match self.entries.remove(oldest.as_str()) {
            Some(entry) => {
                self.estimated_bytes = self.estimated_bytes.saturating_sub(entry.estimated_bytes);
                self.evictions = self.evictions.wrapping_add(1);
            },
            None => {
                proof {
                    assert(old(self)@.entries.remove(oldest@) =~= old(self)@.entries);
                }
            },
        }
    }

    /// Adds what is known of a parent, as an entry of a given size.
    pub fn insert_entry(&mut self, session_id: String, entry: ParentReplayCacheEntry)
        ensures
            final(self)@ == old(self)@.with_entry(session_id@, entry),
    {
        let entry_bytes = entry.estimated_bytes;
        if entry_bytes > PARENT_REPLAY_CACHE_MAX_BYTES {
            self.oversized_bypasses = self.oversized_bypasses.wrapping_add(1);
            return ;
        }
        let ghost start = self@;
        while self.insertion_order.len() > 0 && (self.entries.len()
            >= PARENT_REPLAY_CACHE_MAX_ENTRIES || self.estimated_bytes.saturating_add(entry_bytes)
            > PARENT_REPLAY_CACHE_MAX_BYTES)
            invariant
                entry_bytes <= PARENT_REPLAY_CACHE_MAX_BYTES,
                self@.with_room_for(entry_bytes) == start.with_room_for(entry_bytes),
            decreases self.insertion_order.len(),
        {
            proof {
                assert(self@.order.len() == self.insertion_order@.len());
            }
            self.remove_oldest();
            proof {
                assert(self@.order.len() == self.insertion_order@.len());
            }
        }
        proof {
            assert(self@.order.len() == self.insertion_order@.len());
            assert(self@ == start.with_room_for(entry_bytes));
        }
        self.estimated_bytes = self.estimated_bytes.saturating_add(entry_bytes);
        let ghost before = self.insertion_order@;
        self.insertion_order.push(session_id.clone());
        proof {
            assert(texts(self.insertion_order@) =~= texts(before).push(session_id@));
        }
        self.entries.insert(session_id, entry);
    }

    /// Adds what is known of a parent. The size of the entry counts all that it has reserved.
    pub fn insert(&mut self, session_id: String, snapshots: Option<Vec<UsageSnapshot>>)
        ensures
            exists|entry: ParentReplayCacheEntry|
                #[trigger] keeps_parent(entry, session_id@, snapshots) && final(self)@ == old(
                    self,
                )@.with_entry(session_id@, entry),
    {
        let insertion_order_id = session_id.clone();
        let key_bytes = text_capacity(&session_id);
        let order_bytes = text_capacity(&insertion_order_id);
        let content_bytes = match &snapshots {
            Some(readings) => Some(estimated_usage_snapshots_bytes(readings)),
            None => None,
        };
        let estimated_bytes = entry_estimate(key_bytes, order_bytes, content_bytes);
        let entry = ParentReplayCacheEntry { snapshots, estimated_bytes };
        proof {
            assert(reserves_entry(
                session_id@,
                snapshots,
                key_bytes,
                order_bytes,
                content_bytes,
            ));
            assert(keeps_parent(entry, session_id@, snapshots));
        }
        self.insert_entry(session_id, entry);
    }

    /// How many entries have been removed to make room.
    pub fn evictions(&self) -> (count: usize)
        ensures
            count == self@.evictions,
    {
        self.evictions
    }

    /// How many entries were too large to be kept.
    pub fn oversized_bypasses(&self) -> (count: usize)
        ensures
            count == self@.oversized_bypasses,
    {
        self.oversized_bypasses
    }
}

/// What an entry takes up whose key has reserved these bytes, and the copy of the key in the
/// list of keys these, and whose readings take up these; one byte where there are none to be had.
pub open spec fn entry_bytes(key_bytes: usize, order_bytes: usize, content_bytes: Option<usize>) ->
    int {
    capped(
        layout_size::<ParentReplayCacheEntry>() + 2 * layout_size::<String>() + key_bytes
            + order_bytes + match content_bytes {
            Some(bytes) => bytes as int,
            None => 1,
        },
    )
}

/// What an entry takes up.
pub fn entry_estimate(key_bytes: usize, order_bytes: usize, content_bytes: Option<usize>) -> (bytes:
    usize)
    ensures
        bytes == entry_bytes(key_bytes, order_bytes, content_bytes),
{
    let content: usize = match content_bytes {
        Some(bytes) => bytes,
        None => 1,
    };
    core::mem::size_of::<ParentReplayCacheEntry>().saturating_add(
        capped_product(2, core::mem::size_of::<String>()),
    ).saturating_add(key_bytes).saturating_add(order_bytes).saturating_add(content)
}

/// Whether the key of an entry and its copy were found to have reserved these bytes, and its
/// readings to take up these.
pub open spec fn reserves_entry(
    parent: Seq<char>,
    snapshots: Option<Vec<UsageSnapshot>>,
    key_bytes: usize,
    order_bytes: usize,
    content_bytes: Option<usize>,
) -> bool {
    &&& reserves_bytes(parent, key_bytes)
    &&& reserves_bytes(parent, order_bytes)
    &&& match (snapshots, content_bytes) {
        (Some(readings), Some(bytes)) => is_estimate(
            readings@,
            snapshots_texts(readings@, readings.len() as int),
            bytes,
        ),
        (None, None) => true,
        _ => false,
    }
}

/// Whether an entry is the one that the cache keeps of a parent with these readings: it counts
/// what they and the keys were found to take up.
pub open spec fn keeps_parent(
    entry: ParentReplayCacheEntry,
    parent: Seq<char>,
    snapshots: Option<Vec<UsageSnapshot>>,
) -> bool {
    entry.snapshots == snapshots && exists|
        key_bytes: usize,
        order_bytes: usize,
        content_bytes: Option<usize>,
    |
        #[trigger] reserves_entry(parent, snapshots, key_bytes, order_bytes, content_bytes)
            && entry.estimated_bytes == entry_bytes(key_bytes, order_bytes, content_bytes)
}

} // verus!

//! The tag cache: the tag of a logger is checked and stored once, and shared
//! by count among the writers that carry it.

use crate::chunk::{contains_nul, has_nul};
use crate::pool::{BufferPool, PoolError, PoolView, PooledBuffer};
use vstd::prelude::*;

verus! {

/// Why a tag could not be interned.
#[derive(Debug, Clone, Copy, PartialEq, Eq, Structural)]
pub enum TagError {
    /// The tag holds a terminator, so it cannot be a C string.
    InvalidTag,
    /// The cache does not hold the tag that a handle refers to, or cannot
    /// count one more handle to it.
    UnknownTag,
    /// The pool had no buffer.
    PoolExhausted,
}

/// What one slot of the cache holds: the slot key of the buffer with the
/// tag, the pool that the buffer came out of, the terminated tag, and how
/// many handles share it.
pub struct TagSlot {
    pub key: usize,
    pub home: int,
    pub bytes: Seq<u8>,
    pub refs: nat,
}

/// Whether slot `index` of `slots` holds a tag whose buffer has slot key
/// `key`.
pub open spec fn holds(slots: Seq<Option<TagSlot>>, index: int, key: usize) -> bool {
    &&& 0 <= index < slots.len()
    &&& slots[index] matches Some(slot)
    &&& slot.key == key
}

/// How many slots hold a tag.
pub open spec fn occupied(slots: Seq<Option<TagSlot>>) -> nat
    decreases slots.len(),
{
    if slots.len() == 0 {
        0
    } else {
        occupied(slots.drop_last()) + if slots.last() is Some {
            1nat
        } else {
            0nat
        }
    }
}

/// Whether `index` is the first slot that holds nothing, or the number of
/// slots if all hold a tag.
pub open spec fn is_first_free(slots: Seq<Option<TagSlot>>, index: int) -> bool {
    &&& 0 <= index <= slots.len()
    &&& forall|j: int| 0 <= j < index ==> slots[j] is Some
    &&& index < slots.len() ==> slots[index] is None
}

/// The slots after `slot` was put at `index`, which is a free slot or the
/// number of slots.
pub open spec fn with_tag(slots: Seq<Option<TagSlot>>, index: int, slot: TagSlot) -> Seq<
    Option<TagSlot>,
> {
    if index < slots.len() {
        slots.update(index, Some(slot))
    } else {
        slots.push(Some(slot))
    }
}

/// The slots after one more handle came to share the tag in slot `index`.
pub open spec fn with_clone(slots: Seq<Option<TagSlot>>, index: int) -> Seq<Option<TagSlot>> {
    if 0 <= index < slots.len() && slots[index] is Some {
        let slot = slots[index]->0;
        slots.update(index, Some(TagSlot { refs: slot.refs + 1, ..slot }))
    } else {
        slots
    }
}

/// The slots after one handle to the tag in slot `index` was given back: the
/// count goes down by one, and the slot is emptied when the count was one
/// or less before.
pub open spec fn with_release(slots: Seq<Option<TagSlot>>, index: int) -> Seq<Option<TagSlot>> {
    if 0 <= index < slots.len() && slots[index] is Some {
        let slot = slots[index]->0;
        if slot.refs <= 1 {
            slots.update(index, None)
        } else {
            slots.update(index, Some(TagSlot { refs: (slot.refs - 1) as nat, ..slot }))
        }
    } else {
        slots
    }
}

/// The slots after `n` more handles came to share the tag in slot `index`.
pub open spec fn with_clones(slots: Seq<Option<TagSlot>>, index: int, n: nat) -> Seq<
    Option<TagSlot>,
>
    decreases n,
{
    if n == 0 {
        slots
    } else {
        with_clone(with_clones(slots, index, (n - 1) as nat), index)
    }
}

/// The slots after `n` handles to the tag in slot `index` were given back.
pub open spec fn with_releases(slots: Seq<Option<TagSlot>>, index: int, n: nat) -> Seq<
    Option<TagSlot>,
>
    decreases n,
{
    if n == 0 {
        slots
    } else {
        with_release(with_releases(slots, index, (n - 1) as nat), index)
    }
}

/// Putting something else into one slot changes the number of tags held
/// by what that slot held and holds.
pub proof fn lemma_occupied_update(slots: Seq<Option<TagSlot>>, index: int, slot: Option<TagSlot>)
    requires
        0 <= index < slots.len(),
    ensures
        occupied(slots.update(index, slot)) + (if slots[index] is Some {
            1nat
        } else {
            0nat
        }) == occupied(slots) + (if slot is Some {
            1nat
        } else {
            0nat
        }),
    decreases slots.len(),
{
    let after = slots.update(index, slot);
    if index == slots.len() - 1 {
        assert(after.drop_last() =~= slots.drop_last());
    } else {
        assert(after.drop_last() =~= slots.drop_last().update(index, slot));
        lemma_occupied_update(slots.drop_last(), index, slot);
    }
}

/// `n` clones of a tag in slot `index` raise its count by `n` and change
/// nothing else.
pub proof fn lemma_clones_count(slots: Seq<Option<TagSlot>>, index: int, n: nat)
    requires
        0 <= index < slots.len(),
        slots[index] is Some,
    ensures
        with_clones(slots, index, n) == slots.update(
            index,
            Some(TagSlot { refs: slots[index]->0.refs + n, ..slots[index]->0 }),
        ),
    decreases n,
{
    if n == 0 {
        assert(slots.update(index, Some(TagSlot { refs: slots[index]->0.refs + 0, ..slots[index]->0 }))
            =~= slots);
    } else {
        lemma_clones_count(slots, index, (n - 1) as nat);
        let before = with_clones(slots, index, (n - 1) as nat);
        assert(with_clone(before, index) =~= slots.update(
            index,
            Some(TagSlot { refs: slots[index]->0.refs + n, ..slots[index]->0 }),
        ));
    }
}

/// While fewer handles were given back than share a tag, the tag stays in
/// its slot with its bytes, and the count is what is left.
pub proof fn lemma_releases_keep(slots: Seq<Option<TagSlot>>, index: int, k: nat)
    requires
        0 <= index < slots.len(),
        slots[index] is Some,
        k < slots[index]->0.refs,
    ensures
        with_releases(slots, index, k) == slots.update(
            index,
            Some(TagSlot { refs: (slots[index]->0.refs - k) as nat, ..slots[index]->0 }),
        ),
    decreases k,
{
    if k == 0 {
        assert(slots.update(
            index,
            Some(TagSlot { refs: (slots[index]->0.refs - 0) as nat, ..slots[index]->0 }),
        ) =~= slots);
    } else {
        lemma_releases_keep(slots, index, (k - 1) as nat);
        let before = with_releases(slots, index, (k - 1) as nat);
        assert(with_release(before, index) =~= slots.update(
            index,
            Some(TagSlot { refs: (slots[index]->0.refs - k) as nat, ..slots[index]->0 }),
        ));
    }
}

/// A tag that was interned once and cloned `n` times is shared by `n + 1`
/// handles. It stays in the cache, bytes unchanged, while `n` or fewer of
/// them were given back, and its slot is emptied when the last one is: only
/// then does the cache hold one tag fewer. No other slot changes.
pub proof fn lemma_tag_lives_until_last_release(
    slots: Seq<Option<TagSlot>>,
    index: int,
    n: nat,
    k: nat,
)
    requires
        0 <= index < slots.len(),
        slots[index] matches Some(slot) && slot.refs == 1,
        k <= n,
    ensures
        with_clones(slots, index, n)[index] == Some(
            TagSlot { refs: n + 1, ..slots[index]->0 },
        ),
        with_releases(with_clones(slots, index, n), index, k)[index] == Some(
            TagSlot { refs: (n + 1 - k) as nat, ..slots[index]->0 },
        ),
        with_releases(with_clones(slots, index, n), index, n + 1)[index] == None::<TagSlot>,
        occupied(with_releases(with_clones(slots, index, n), index, k)) == occupied(slots),
        occupied(with_releases(with_clones(slots, index, n), index, n + 1)) + 1 == occupied(
            slots,
        ),
        forall|j: int|
            0 <= j < slots.len() && j != index ==> with_releases(
                with_clones(slots, index, n),
                index,
                n + 1,
            )[j] == slots[j],
{
    lemma_clones_count(slots, index, n);
    let shared = with_clones(slots, index, n);
    lemma_releases_keep(shared, index, k);
    lemma_releases_keep(shared, index, n);
    let last = with_releases(shared, index, n);
    assert(with_releases(shared, index, n + 1) == with_release(last, index));
    lemma_occupied_update(slots, index, Some(TagSlot { refs: n + 1, ..slots[index]->0 }));
    lemma_occupied_update(
        shared,
        index,
        Some(TagSlot { refs: (n + 1 - k) as nat, ..slots[index]->0 }),
    );
    lemma_occupied_update(shared, index, Some(TagSlot { refs: 1, ..slots[index]->0 }));
    lemma_occupied_update(last, index, None);
}

struct TagEntry {
    bytes: PooledBuffer,
    refs: usize,
}

/// The cache of interned tags, with the pool that their buffers come from.
pub struct TagCache {
    pool: BufferPool,
    entries: Vec<Option<TagEntry>>,
}

/// A handle to an interned tag. Each handle counts as one share of the tag:
/// it is made by [`TagCache::intern`] or [`TagCache::clone_tag`] and ends in
/// [`TagCache::release`].
#[derive(Debug)]
pub struct PooledTag {
    index: usize,
    key: usize,
}

impl PooledTag {
    /// The cache slot that the handle refers to.
    pub closed spec fn index(&self) -> int {
        self.index as int
    }

    /// The slot key of the buffer that held the tag when the handle was made.
    pub closed spec fn slot(&self) -> usize {
        self.key
    }

    /// Returns the slot key of the buffer that holds the tag.
    pub fn key(&self) -> (key: usize)
        ensures
            key == self.slot(),
    {
        self.key
    }
}

impl View for TagCache {
    type V = Seq<Option<TagSlot>>;

    /// What each slot of the cache holds.
    closed spec fn view(&self) -> Seq<Option<TagSlot>> {
        Seq::new(
            self.entries@.len(),
            |i: int|
                match self.entries@[i] {
                    Some(entry) => Some(
                        TagSlot {
                            key: entry.bytes.slot(),
                            home: entry.bytes.home(),
                            bytes: entry.bytes@,
                            refs: entry.refs as nat,
                        },
                    ),
                    None => None,
                },
        )
    }
}

impl TagCache {
    /// Whether the cache holds the tag that `tag` refers to.
    pub open spec fn owns(&self, tag: &PooledTag) -> bool {
        holds(self@, tag.index(), tag.slot())
    }

    /// The pool that the cache takes the buffers of its tags from.
    pub closed spec fn pool(&self) -> PoolView {
        self.pool@
    }

    /// Returns how many buffers the cache's pool counts as out.
    pub fn checked_out(&self) -> (n: usize)
        ensures
            n == self.pool().out,
    {
        self.pool.checked_out()
    }

    /// Creates a cache that holds no tag, with a pool of its own that has
    /// no buffer out.
    pub fn new() -> (cache: TagCache)
        ensures
            cache@ == Seq::<Option<TagSlot>>::empty(),
            cache.pool().live == Set::<usize>::empty(),
            cache.pool().out == 0,
    {
        let cache = TagCache { pool: BufferPool::new(), entries: Vec::new() };
        assert(cache@ =~= Seq::<Option<TagSlot>>::empty());
        cache
    }

    /// Returns how many tags the cache holds.
    pub fn live_tags(&self) -> (count: usize)
        ensures
            count == occupied(self@),
    {
        let mut count: usize = 0;
        let mut i: usize = 0;
        assert(self@.take(0) =~= Seq::<Option<TagSlot>>::empty());
        while i < self.entries.len()
            invariant
                i <= self.entries@.len(),
                self@.len() == self.entries@.len(),
                count <= i,
                count == occupied(self@.take(i as int)),
            decreases self.entries@.len() - i,
        {
            assert(self@.take(i + 1).drop_last() =~= self@.take(i as int));
            assert(self@.take(i + 1).last() == self@[i as int]);
            if self.entries[i].is_some() {
                count = count + 1;
            }
            i = i + 1;
        }
        assert(self@.take(i as int) =~= self@);
        count
    }

    fn find_free(&self) -> (index: usize)
        ensures
            is_first_free(self@, index as int),
    {
        let mut i: usize = 0;
        while i < self.entries.len()
            invariant
                i <= self.entries@.len(),
                forall|j: int| 0 <= j < i ==> (#[trigger] self.entries@[j]) is Some,
            decreases self.entries@.len() - i,
        {
            if self.entries[i].is_none() {
                return i;
            }
            i = i + 1;
        }
        i
    }

    /// Stores a buffer that holds a terminated tag, if there is one, in the
    /// first free slot, with a count of one, and returns the handle to it.
    /// Without a buffer nothing changes. The cache's pool is not touched.
    pub fn install(&mut self, buffer: Result<PooledBuffer, PoolError>) -> (result: Result<
        PooledTag,
        TagError,
    >)
        ensures
            final(self).pool() == old(self).pool(),
            match buffer {
                Ok(b) => {
                    &&& result matches Ok(tag)
                    &&& is_first_free(old(self)@, tag.index())
                    &&& tag.slot() == b.slot()
                    &&& final(self)@ == with_tag(
                        old(self)@,
                        tag.index(),
                        TagSlot { key: b.slot(), home: b.home(), bytes: b@, refs: 1 },
                    )
                    &&& final(self).owns(&tag)
                },
                Err(_) => {
                    &&& result matches Err(e)
                    &&& e == TagError::PoolExhausted
                    &&& final(self)@ == old(self)@
                },
            },
    {
        match buffer {
            Ok(bytes) => {
                let index = self.find_free();
                let key = bytes.key();
                let ghost slot = TagSlot {
                    key: bytes.slot(),
                    home: bytes.home(),
                    bytes: bytes@,
                    refs: 1,
                };
                let entry = Some(TagEntry { bytes, refs: 1 });
                if index < self.entries.len() {
                    self.entries.set(index, entry);
                } else {
                    self.entries.push(entry);
                }
                assert(final(self)@ =~= with_tag(old(self)@, index as int, slot));
                Ok(PooledTag { index, key })
            },
            Err(_) => Err(TagError::PoolExhausted),
        }
    }

    /// Interns a tag: checks that it holds no terminator, stores it with one
    /// behind it in a buffer of the cache's pool, and returns the first
    /// handle to it. A tag with a terminator in it is refused and nothing
    /// changes. Whether the pool has a buffer is for the pool to say;
    /// without one nothing changes either.
    pub fn intern(&mut self, bytes: &[u8]) -> (result: Result<PooledTag, TagError>)
        ensures
            has_nul(bytes@) ==> (result matches Err(e) && e == TagError::InvalidTag),
            match result {
                Ok(tag) => {
                    &&& !has_nul(bytes@)
                    &&& is_first_free(old(self)@, tag.index())
                    &&& final(self)@ == with_tag(
                        old(self)@,
                        tag.index(),
                        TagSlot {
                            key: tag.slot(),
                            home: old(self).pool().id,
                            bytes: bytes@.push(0),
                            refs: 1,
                        },
                    )
                    &&& final(self).owns(&tag)
                    &&& !old(self).pool().live.contains(tag.slot())
                    &&& final(self).pool() == old(self).pool().hand_out(tag.slot())
                },
                Err(e) => {
                    &&& final(self)@ == old(self)@
                    &&& final(self).pool() == old(self).pool()
                    &&& e == TagError::InvalidTag <==> has_nul(bytes@)
                    &&& e == TagError::PoolExhausted <==> !has_nul(bytes@)
                },
            },
    {
        if contains_nul(bytes) {
            return Err(TagError::InvalidTag);
        }
        let buffer = match self.pool.acquire_with(bytes) {
            Ok(mut buffer) => {
                buffer.push(0);
                Ok(buffer)
            },
            Err(e) => Err(e),
        };
        self.install(buffer)
    }

    /// Whether one more handle to the tag that `tag` refers to can be made:
    /// the cache holds the tag and can count one more.
    pub open spec fn cloneable(&self, tag: &PooledTag) -> bool {
        self.owns(tag) && self@[tag.index()]->0.refs < usize::MAX
    }

    /// Returns whether one more handle to the tag that `tag` refers to can
    /// be made.
    pub fn can_clone(&self, tag: &PooledTag) -> (ok: bool)
        ensures
            ok == self.cloneable(tag),
    {
        if tag.index >= self.entries.len() {
            return false;
        }
        match &self.entries[tag.index] {
            Some(entry) => entry.bytes.key() == tag.key && entry.refs < usize::MAX,
            None => false,
        }
    }

    /// Returns one more handle to the tag that `tag` refers to, and counts
    /// it. Returns nothing, and changes nothing, if the cache does not hold
    /// that tag or cannot count one more handle. The cache's pool is not
    /// touched.
    pub fn clone_tag(&mut self, tag: &PooledTag) -> (result: Option<PooledTag>)
        ensures
            final(self).pool() == old(self).pool(),
            match result {
                Some(copy) => {
                    &&& old(self).cloneable(tag)
                    &&& copy.index() == tag.index()
                    &&& copy.slot() == tag.slot()
                    &&& final(self)@ == with_clone(old(self)@, tag.index())
                    &&& final(self).owns(&copy)
                },
                None => {
                    &&& !old(self).cloneable(tag)
                    &&& final(self)@ == old(self)@
                },
            },
    {
        if self.can_clone(tag) {
            Some(self.clone_held(tag))
        } else {
            None
        }
    }

    /// Counts one more handle to a tag that the cache holds and can count
    /// one more handle to, and returns that handle.
    pub(crate) fn clone_held(&mut self, tag: &PooledTag) -> (copy: PooledTag)
        requires
            old(self).cloneable(tag),
        ensures
            final(self).pool() == old(self).pool(),
            copy.index() == tag.index(),
            copy.slot() == tag.slot(),
            final(self)@ == with_clone(old(self)@, tag.index()),
            final(self).owns(&copy),
    {
        let entry = self.take_entry(tag.index);
        let entry = match entry {
            Some(TagEntry { bytes, refs }) => Some(TagEntry { bytes, refs: refs + 1 }),
            None => None,
        };
        self.entries.set(tag.index, entry);
        assert(final(self)@ =~= with_clone(old(self)@, tag.index()));
        PooledTag { index: tag.index, key: tag.key }
    }

    /// Takes what slot `index` holds out of the table and leaves the slot
    /// empty.
    fn take_entry(&mut self, index: usize) -> (entry: Option<TagEntry>)
        requires
            index < old(self).entries@.len(),
        ensures
            entry == old(self).entries@[index as int],
            final(self).entries@ == old(self).entries@.update(index as int, None),
            final(self).pool == old(self).pool,
    {
        self.entries.push(None);
        let entry = self.entries.swap_remove(index);
        assert(self.entries@ =~= old(self).entries@.update(index as int, None));
        entry
    }

    /// Gives one handle back. The tag's count goes down by one; when it was
    /// one or less, the tag is cleared from the cache and its buffer goes
    /// back to the cache's pool, if it came out of that pool. Returns
    /// whether the tag was cleared. A handle to a tag that the cache does
    /// not hold changes nothing, and so does a tag that is not cleared.
    pub fn release(&mut self, tag: PooledTag) -> (cleared: bool)
        ensures
            old(self).owns(&tag) ==> {
                &&& final(self)@ == with_release(old(self)@, tag.index())
                &&& cleared == (old(self)@[tag.index()]->0.refs <= 1)
            },
            !old(self).owns(&tag) ==> final(self)@ == old(self)@ && !cleared,
            final(self).pool() == if cleared {
                old(self).pool().give_back(old(self)@[tag.index()]->0.home, tag.slot())
            } else {
                old(self).pool()
            },
    {
        if tag.index >= self.entries.len() {
            return false;
        }
        let entry = self.take_entry(tag.index);
        match entry {
            Some(TagEntry { bytes, refs }) => {
                if bytes.key() != tag.key {
                    self.entries.set(tag.index, Some(TagEntry { bytes, refs }));
                    assert(final(self)@ =~= old(self)@);
                    false
                } else if refs <= 1 {
                    self.pool.release(bytes);
                    assert(final(self)@ =~= with_release(old(self)@, tag.index()));
                    true
                } else {
                    self.entries.set(tag.index, Some(TagEntry { bytes, refs: refs - 1 }));
                    assert(final(self)@ =~= with_release(old(self)@, tag.index()));
                    false
                }
            },
            None => {
                assert(final(self)@ =~= old(self)@);
                false
            },
        }
    }

    /// Returns the terminated bytes of the tag that `tag` refers to, or
    /// nothing if the cache does not hold that tag.
    pub fn bytes(&self, tag: &PooledTag) -> (bytes: Option<&[u8]>)
        ensures
            self.owns(tag) ==> (bytes matches Some(b) && b@ == self@[tag.index()]->0.bytes),
            !self.owns(tag) ==> bytes is None,
    {
        if tag.index >= self.entries.len() {
            return None;
        }
        match &self.entries[tag.index] {
            Some(entry) => {
                if entry.bytes.key() == tag.key {
                    Some(entry.bytes.as_bytes())
                } else {
                    None
                }
            },
            None => None,
        }
    }

    /// Returns how many handles share the tag that `tag` refers to, or zero
    /// if the cache does not hold that tag.
    pub fn ref_count(&self, tag: &PooledTag) -> (count: usize)
        ensures
            self.owns(tag) ==> count == self@[tag.index()]->0.refs,
            !self.owns(tag) ==> count == 0,
    {
        if tag.index >= self.entries.len() {
            return 0;
        }
        match &self.entries[tag.index] {
            Some(entry) => {
                if entry.bytes.key() == tag.key {
                    entry.refs
                } else {
                    0
                }
            },
            None => 0,
        }
    }
}

} // verus!

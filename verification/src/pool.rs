//! The buffer pool: byte buffers that are handed out empty, filled by one
//! owner, and given back to be used again.

use sharded_slab::pool::OwnedRefMut;
use sharded_slab::Pool;
use std::sync::Arc;
use crate::chunk::{check_c_string, is_c_string, terminated};
use vstd::prelude::*;

verus! {

/// A `sharded_slab::Pool` of byte vectors. The slab owns the storage of
/// every buffer.
#[verifier::external_body]
pub struct Slab {
    inner: Arc<Pool<Vec<u8>>>,
}

/// A `sharded_slab::pool::OwnedRefMut`: the guard through which one owner
/// reads and writes the byte vector in one slot of a slab, with a reference
/// to the slab that the slot lies in.
#[verifier::external_body]
pub struct SlotGuard {
    inner: OwnedRefMut<Vec<u8>>,
    home: Arc<Pool<Vec<u8>>>,
}

/// The keys of the slots of a slab that are taken: handed out by `create`
/// and not yet removed by `clear`.
pub uninterp spec fn slab_live(slab: Slab) -> Set<usize>;

/// Which slab a slab value stands for. It stays the same while slots are
/// taken and given back.
pub uninterp spec fn slab_id(slab: Slab) -> int;

/// The bytes in the slot that a guard gives access to.
pub uninterp spec fn guard_bytes(guard: SlotGuard) -> Seq<u8>;

/// The key of the slot that a guard gives access to.
pub uninterp spec fn guard_key(guard: SlotGuard) -> usize;

/// Which slab the slot of a guard lies in.
pub uninterp spec fn guard_home(guard: SlotGuard) -> int;

/// `Pool::new`: a slab with no slot taken.
#[verifier::external_body]
fn slab_new() -> (slab: Slab)
    ensures
        slab_live(slab) == Set::<usize>::empty(),
{
    Slab { inner: Arc::new(Pool::new()) }
}

/// `Pool::create_owned`: takes a free slot of the slab and returns the guard
/// to it, or nothing when the slab has no room. The slot's vector is either
/// new or was cleared when its last user gave it back, so it holds no bytes.
/// Its key is that of no slot that is taken, and the slot is taken from now
/// on. Without a free slot nothing changes.
#[verifier::external_body]
fn slab_create(slab: &mut Slab) -> (guard: Option<SlotGuard>)
    ensures
        slab_id(*final(slab)) == slab_id(*old(slab)),
        match guard {
            Some(g) => {
                &&& guard_bytes(g) == Seq::<u8>::empty()
                &&& guard_home(g) == slab_id(*old(slab))
                &&& !slab_live(*old(slab)).contains(guard_key(g))
                &&& slab_live(*final(slab)) == slab_live(*old(slab)).insert(guard_key(g))
            },
            None => slab_live(*final(slab)) == slab_live(*old(slab)),
        },
{
    match slab.inner.clone().create_owned() {
        Some(inner) => Some(SlotGuard { inner, home: slab.inner.clone() }),
        None => None,
    }
}

/// `Arc::ptr_eq` on the slab and the slab that the guard's slot lies in:
/// whether the slot is one of this slab.
#[verifier::external_body]
fn slab_owns(slab: &Slab, guard: &SlotGuard) -> (owned: bool)
    ensures
        owned == (guard_home(*guard) == slab_id(*slab)),
{
    Arc::ptr_eq(&slab.inner, &guard.home)
}

/// `OwnedRefMut::key`: the key of the guarded slot.
#[verifier::external_body]
fn slab_key(guard: &SlotGuard) -> (key: usize)
    ensures
        key == guard_key(*guard),
{
    guard.inner.key()
}

/// Reads the guarded vector as a slice, through the guard's `Deref`.
#[verifier::external_body]
fn slab_bytes(guard: &SlotGuard) -> (bytes: &[u8])
    ensures
        bytes@ == guard_bytes(*guard),
{
    guard.inner.as_slice()
}

/// `Vec::extend_from_slice` on the guarded vector: the given bytes are added
/// behind those that are there. The slot stays the same.
#[verifier::external_body]
fn slab_extend(guard: &mut SlotGuard, data: &[u8])
    ensures
        guard_bytes(*final(guard)) == guard_bytes(*old(guard)) + data@,
        guard_key(*final(guard)) == guard_key(*old(guard)),
        guard_home(*final(guard)) == guard_home(*old(guard)),
{
    guard.inner.extend_from_slice(data)
}

/// `Vec::push` on the guarded vector: one byte is added at the end. The slot
/// stays the same.
#[verifier::external_body]
fn slab_push(guard: &mut SlotGuard, byte: u8)
    ensures
        guard_bytes(*final(guard)) == guard_bytes(*old(guard)).push(byte),
        guard_key(*final(guard)) == guard_key(*old(guard)),
        guard_home(*final(guard)) == guard_home(*old(guard)),
{
    guard.inner.push(byte)
}

/// Gives a slot back to the slab that it lies in: the guard is dropped,
/// then `Pool::clear` removes the slot's value, which clears the vector and
/// frees the slot. The slot is no longer taken; the others are as before.
#[verifier::external_body]
fn slab_release(slab: &mut Slab, guard: SlotGuard, key: usize)
    requires
        key == guard_key(guard),
        guard_home(guard) == slab_id(*old(slab)),
    ensures
        slab_id(*final(slab)) == slab_id(*old(slab)),
        slab_live(*final(slab)) == slab_live(*old(slab)).remove(key),
{
    drop(guard);
    slab.inner.clear(key);
}

/// Why the pool could not hand out a buffer.
#[derive(Debug, Clone, Copy, PartialEq, Eq, Structural)]
pub enum PoolError {
    /// No slot is free, or more buffers are out than can be counted.
    PoolExhausted,
}

/// A pool of reusable byte buffers.
pub struct BufferPool {
    slab: Slab,
    out: usize,
}

/// A buffer that is checked out of a [`BufferPool`]. Whoever holds the value
/// holds the buffer alone.
pub struct PooledBuffer {
    guard: SlotGuard,
}

impl View for PooledBuffer {
    type V = Seq<u8>;

    /// The bytes in the buffer.
    closed spec fn view(&self) -> Seq<u8> {
        guard_bytes(self.guard)
    }
}

impl PooledBuffer {
    /// The key of the pool slot behind this buffer.
    pub closed spec fn slot(&self) -> usize {
        guard_key(self.guard)
    }

    /// Which pool the buffer came out of: the [`BufferPool::id`] of that
    /// pool.
    pub closed spec fn home(&self) -> int {
        guard_home(self.guard)
    }

    /// Returns the key of the pool slot behind this buffer.
    pub fn key(&self) -> (key: usize)
        ensures
            key == self.slot(),
    {
        slab_key(&self.guard)
    }

    /// Returns the bytes in the buffer.
    pub fn as_bytes(&self) -> (bytes: &[u8])
        ensures
            bytes@ == self@,
    {
        slab_bytes(&self.guard)
    }

    /// Returns how many bytes are in the buffer.
    pub fn len(&self) -> (len: usize)
        ensures
            len == self@.len(),
    {
        slab_bytes(&self.guard).len()
    }

    /// Appends `data` to the buffer.
    pub fn write(&mut self, data: &[u8])
        ensures
            final(self)@ == old(self)@ + data@,
            final(self).slot() == old(self).slot(),
            final(self).home() == old(self).home(),
    {
        slab_extend(&mut self.guard, data)
    }

    /// Appends one byte to the buffer.
    pub fn push(&mut self, byte: u8)
        ensures
            final(self)@ == old(self)@.push(byte),
            final(self).slot() == old(self).slot(),
            final(self).home() == old(self).home(),
    {
        slab_push(&mut self.guard, byte)
    }
}

impl PooledBuffer {
    /// Makes sure that the buffer ends in a terminator, adding one unless the
    /// last byte is one already, and returns the bytes if they are a C
    /// string. They are not if a terminator stands before the last byte.
    pub fn as_terminated(&mut self) -> (bytes: Option<&[u8]>)
        ensures
            final(self)@ == terminated(old(self)@),
            final(self).slot() == old(self).slot(),
            final(self).home() == old(self).home(),
            is_c_string(terminated(old(self)@)) ==> (bytes matches Some(b) && b@ == terminated(
                old(self)@,
            )),
            !is_c_string(terminated(old(self)@)) ==> bytes is None,
    {
        let len: usize = self.len();
        if len == 0 || self.as_bytes()[len - 1] != 0 {
            self.push(0);
        }
        let bytes = self.as_bytes();
        if check_c_string(bytes) {
            Some(bytes)
        } else {
            None
        }
    }
}

/// One fewer than `n`, or zero.
pub open spec fn one_fewer(n: nat) -> nat {
    if n > 0 {
        (n - 1) as nat
    } else {
        0
    }
}

/// What a pool holds: which pool it is, the slot keys of the buffers that
/// are checked out of it, and how many buffers it counts as out: one more
/// for each that it handed out, one fewer for each of its own that was
/// given back.
#[verifier::ext_equal]
pub struct PoolView {
    pub id: int,
    pub live: Set<usize>,
    pub out: nat,
}

impl PoolView {
    /// The pool after it handed out a buffer on the given slot.
    pub open spec fn hand_out(self, slot: usize) -> PoolView {
        PoolView { id: self.id, live: self.live.insert(slot), out: self.out + 1 }
    }

    /// The pool after a buffer of pool `home` on slot `slot` was released
    /// into it: if the buffer came out of this pool, its slot is no longer
    /// taken and one buffer fewer is counted as out; a buffer of another
    /// pool changes nothing.
    pub open spec fn give_back(self, home: int, slot: usize) -> PoolView {
        if home == self.id {
            PoolView { id: self.id, live: self.live.remove(slot), out: one_fewer(self.out) }
        } else {
            self
        }
    }
}

impl View for BufferPool {
    type V = PoolView;

    closed spec fn view(&self) -> PoolView {
        PoolView { id: slab_id(self.slab), live: slab_live(self.slab), out: self.out as nat }
    }
}

impl BufferPool {
    /// How many buffers this pool counts as out.
    pub open spec fn outstanding(&self) -> nat {
        self@.out
    }

    /// The slot keys of the buffers that are checked out of this pool.
    pub open spec fn live(&self) -> Set<usize> {
        self@.live
    }

    /// Which pool this is. A buffer belongs to the pool whose `id` is the
    /// buffer's [`PooledBuffer::home`].
    pub open spec fn id(&self) -> int {
        self@.id
    }

    /// Creates a pool with no buffer checked out.
    pub fn new() -> (pool: BufferPool)
        ensures
            pool@.out == 0,
            pool@.live == Set::<usize>::empty(),
    {
        BufferPool { slab: slab_new(), out: 0 }
    }

    /// Returns how many buffers this pool counts as out.
    pub fn checked_out(&self) -> (n: usize)
        ensures
            n == self@.out,
    {
        self.out
    }

    /// Returns whether the buffer came out of this pool.
    pub fn owns(&self, buffer: &PooledBuffer) -> (owned: bool)
        ensures
            owned == (buffer.home() == self@.id),
    {
        slab_owns(&self.slab, &buffer.guard)
    }

    /// Books a slot that the slab handed out, or the lack of one. With a
    /// slot, and room to count it, the result is the buffer on that slot and
    /// one more buffer is counted as out. A slot that cannot be counted goes
    /// back to the slab if it is one of this pool's. Without a slot nothing
    /// changes.
    pub fn check_out(&mut self, slot: Option<SlotGuard>) -> (result: Result<
        PooledBuffer,
        PoolError,
    >)
        ensures
            match slot {
                Some(g) if old(self)@.out < usize::MAX => {
                    &&& result matches Ok(buffer)
                    &&& buffer@ == guard_bytes(g)
                    &&& buffer.slot() == guard_key(g)
                    &&& buffer.home() == guard_home(g)
                    &&& final(self)@ == (PoolView { out: old(self)@.out + 1, ..old(self)@ })
                },
                Some(g) => {
                    &&& result == Err::<PooledBuffer, PoolError>(PoolError::PoolExhausted)
                    &&& final(self)@ == if guard_home(g) == old(self)@.id {
                        PoolView { live: old(self)@.live.remove(guard_key(g)), ..old(self)@ }
                    } else {
                        old(self)@
                    }
                },
                None => {
                    &&& result == Err::<PooledBuffer, PoolError>(PoolError::PoolExhausted)
                    &&& final(self)@ == old(self)@
                },
            },
    {
        match slot {
            Some(guard) => {
                if self.out < usize::MAX {
                    self.out = self.out + 1;
                    Ok(PooledBuffer { guard })
                } else {
                    if slab_owns(&self.slab, &guard) {
                        let key = slab_key(&guard);
                        slab_release(&mut self.slab, guard, key);
                    }
                    Err(PoolError::PoolExhausted)
                }
            },
            None => Err(PoolError::PoolExhausted),
        }
    }

    /// Checks a buffer out of the pool. The buffer is empty, whatever the
    /// last holder of its slot wrote, and its slot is one that no buffer
    /// that is out lies on. Fails when the slab has no free slot or no
    /// further buffer can be counted; nothing has changed then.
    ///
    /// The slab serves a bounded number of threads, 4096 as it is set up.
    /// In a process with more live threads than that, the slab panics.
    pub fn acquire(&mut self) -> (result: Result<PooledBuffer, PoolError>)
        ensures
            match result {
                Ok(buffer) => {
                    &&& buffer@ == Seq::<u8>::empty()
                    &&& buffer.home() == old(self)@.id
                    &&& !old(self)@.live.contains(buffer.slot())
                    &&& final(self)@ == old(self)@.hand_out(buffer.slot())
                },
                Err(e) => {
                    &&& e == PoolError::PoolExhausted
                    &&& final(self)@ == old(self)@
                },
            },
    {
        let slot = slab_create(&mut self.slab);
        let ghost got = slot;
        let result = self.check_out(slot);
        proof {
            if let Some(g) = got {
                assert(old(self)@.live.insert(guard_key(g)).remove(guard_key(g)) =~= old(
                    self,
                )@.live);
            }
        }
        result
    }

    /// Checks out a buffer that holds a copy of `data`.
    pub fn acquire_with(&mut self, data: &[u8]) -> (result: Result<PooledBuffer, PoolError>)
        ensures
            match result {
                Ok(buffer) => {
                    &&& buffer@ == data@
                    &&& buffer.home() == old(self)@.id
                    &&& !old(self)@.live.contains(buffer.slot())
                    &&& final(self)@ == old(self)@.hand_out(buffer.slot())
                },
                Err(e) => {
                    &&& e == PoolError::PoolExhausted
                    &&& final(self)@ == old(self)@
                },
            },
    {
        match self.acquire() {
            Ok(mut buffer) => {
                buffer.write(data);
                assert(Seq::<u8>::empty() + data@ =~= data@);
                Ok(buffer)
            },
            Err(e) => Err(e),
        }
    }

    /// Gives a buffer back to the pool that it came out of. Its bytes are
    /// cleared, its slot is no longer taken and is free for the next
    /// holder, and one buffer fewer is counted as out. Returns whether that
    /// was done.
    ///
    /// A buffer of another pool is not taken: this pool stays as it is, and
    /// the buffer is dropped without being given back, so its slot stays
    /// taken in its own pool. The same holds of any buffer that is dropped
    /// instead of being released.
    ///
    /// In a process with more live threads than the slab serves, the slab
    /// panics.
    pub fn release(&mut self, buffer: PooledBuffer) -> (given_back: bool)
        ensures
            given_back == (buffer.home() == old(self)@.id),
            final(self)@ == old(self)@.give_back(buffer.home(), buffer.slot()),
    {
        let PooledBuffer { guard } = buffer;
        if !slab_owns(&self.slab, &guard) {
            return false;
        }
        let key = slab_key(&guard);
        slab_release(&mut self.slab, guard, key);
        if self.out > 0 {
            self.out = self.out - 1;
        }
        true
    }
}

} // verus!

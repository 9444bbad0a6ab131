//! What a flushed writer leaves behind: the terminated messages that are
//! ready for the sink, and the records that they are sent in.

use crate::chunk::{sendable, terminated};
use crate::logging::{Buffer, Priority};
use crate::pool::{BufferPool, PoolError, PooledBuffer};
use crate::tag::{with_release, PooledTag, TagCache};
use smallvec::SmallVec;
use vstd::prelude::*;

verus! {

/// A `smallvec::SmallVec` of pooled buffers with room for four before it
/// spills to the heap.
#[verifier::external_body]
pub struct BufferList {
    inner: SmallVec<[PooledBuffer; 4]>,
}

/// The buffers in a list, in the order in which they were pushed.
pub uninterp spec fn list_items(list: BufferList) -> Seq<PooledBuffer>;

/// `SmallVec::new`: a list that holds nothing.
#[verifier::external_body]
pub(crate) fn list_new() -> (list: BufferList)
    ensures
        list_items(list) == Seq::<PooledBuffer>::empty(),
{
    BufferList { inner: SmallVec::new() }
}

/// `SmallVec::len`: how many buffers the list holds.
#[verifier::external_body]
fn list_len(list: &BufferList) -> (len: usize)
    ensures
        len == list_items(*list).len(),
{
    list.inner.len()
}

/// `SmallVec::push`: the buffer is added behind those that are there.
#[verifier::external_body]
pub(crate) fn list_push(list: &mut BufferList, buffer: PooledBuffer)
    ensures
        list_items(*final(list)) == list_items(*old(list)).push(buffer),
{
    list.inner.push(buffer)
}

/// `SmallVec::pop`: takes the last buffer out of the list, or returns
/// nothing if the list is empty.
#[verifier::external_body]
fn list_pop(list: &mut BufferList) -> (buffer: Option<PooledBuffer>)
    ensures
        list_items(*old(list)).len() == 0 ==> buffer is None && list_items(*final(list))
            == list_items(*old(list)),
        list_items(*old(list)).len() > 0 ==> buffer == Some(list_items(*old(list)).last())
            && list_items(*final(list)) == list_items(*old(list)).drop_last(),
{
    list.inner.pop()
}

/// Indexes the list as a slice, through its `Deref`: the buffer at `index`.
#[verifier::external_body]
fn list_get(list: &BufferList, index: usize) -> (buffer: &PooledBuffer)
    requires
        index < list_items(*list).len(),
    ensures
        *buffer == list_items(*list)[index as int],
{
    &list.inner[index]
}

impl BufferList {
    /// Creates a list that holds no buffer.
    pub fn new() -> (list: BufferList)
        ensures
            list_items(list) == Seq::<PooledBuffer>::empty(),
    {
        list_new()
    }

    /// Returns how many buffers the list holds.
    pub fn len(&self) -> (len: usize)
        ensures
            len == list_items(*self).len(),
    {
        list_len(self)
    }

    /// Returns the buffer at `index`, or nothing if the list is shorter.
    pub fn get(&self, index: usize) -> (buffer: Option<&PooledBuffer>)
        ensures
            index < list_items(*self).len() ==> buffer == Some(&list_items(*self)[index as int]),
            index >= list_items(*self).len() ==> buffer is None,
    {
        if index < list_len(self) {
            Some(list_get(self, index))
        } else {
            None
        }
    }

    /// Takes the last buffer out of the list, or returns nothing if the
    /// list is empty.
    pub fn pop(&mut self) -> (buffer: Option<PooledBuffer>)
        ensures
            list_items(*old(self)).len() == 0 ==> buffer is None && list_items(*final(self))
                == list_items(*old(self)),
            list_items(*old(self)).len() > 0 ==> buffer == Some(list_items(*old(self)).last())
                && list_items(*final(self)) == list_items(*old(self)).drop_last(),
    {
        list_pop(self)
    }
}

/// The two ways in which the platform takes a record.
#[derive(Debug, Clone, Copy, PartialEq, Eq, Structural)]
pub enum SinkPath {
    /// The call that every platform version has: priority, tag and message.
    Legacy,
    /// The call that also takes the log buffer and the source location, on
    /// platforms that can say whether a message would be logged at all.
    Extended,
}

/// The first platform version that has the extended call.
pub const EXTENDED_SINCE: i32 = 30;

impl SinkPath {
    /// The path that a platform of the given API level is reached on: the
    /// extended one from level [`EXTENDED_SINCE`] on, the legacy one before.
    pub open spec fn of_api_level(level: int) -> SinkPath {
        if level >= EXTENDED_SINCE {
            SinkPath::Extended
        } else {
            SinkPath::Legacy
        }
    }

    /// Returns the path that a platform of the given API level is reached
    /// on.
    pub fn for_api_level(level: i32) -> (path: SinkPath)
        ensures
            path == SinkPath::of_api_level(level as int),
    {
        if level >= EXTENDED_SINCE {
            SinkPath::Extended
        } else {
            SinkPath::Legacy
        }
    }
}

/// Walks the messages of a batch by their index: the one message of a batch
/// that was sent whole, or each piece of one that was split.
#[derive(Debug)]
pub enum MessageIter {
    /// The message was sent whole; it is pending while the flag is set.
    Single(bool),
    /// The message was split; the pieces from the first index up to the
    /// second are pending.
    Multi(usize, usize),
}

impl MessageIter {
    /// The indices that are still to come, in order.
    pub open spec fn remaining(&self) -> Seq<usize> {
        match *self {
            MessageIter::Single(pending) => if pending {
                seq![0usize]
            } else {
                Seq::empty()
            },
            MessageIter::Multi(next, end) => if next < end {
                Seq::new((end - next) as nat, |k: int| (next + k) as usize)
            } else {
                Seq::empty()
            },
        }
    }

    /// Returns the next index, or nothing when all were returned.
    pub fn next(&mut self) -> (index: Option<usize>)
        ensures
            old(self).remaining().len() == 0 ==> index is None && final(self).remaining().len()
                == 0,
            old(self).remaining().len() > 0 ==> index == Some(old(self).remaining()[0])
                && final(self).remaining() == old(self).remaining().skip(1),
    {
        match *self {
            MessageIter::Single(pending) => {
                if pending {
                    *self = MessageIter::Single(false);
                    assert(final(self).remaining() =~= old(self).remaining().skip(1));
                    Some(0)
                } else {
                    None
                }
            },
            MessageIter::Multi(next, end) => {
                if next < end {
                    *self = MessageIter::Multi(next + 1, end);
                    assert(final(self).remaining() =~= old(self).remaining().skip(1));
                    Some(next)
                } else {
                    None
                }
            },
        }
    }

    /// Returns how many indices are still to come, as the lower and the
    /// upper bound.
    pub fn size_hint(&self) -> (hint: (usize, Option<usize>))
        ensures
            hint.0 == self.remaining().len(),
            hint.1 == Some(hint.0),
    {
        match *self {
            MessageIter::Single(true) => (1, Some(1)),
            MessageIter::Single(false) => (0, Some(0)),
            MessageIter::Multi(next, end) => {
                if next < end {
                    (end - next, Some(end - next))
                } else {
                    (0, Some(0))
                }
            },
        }
    }
}

/// The messages that go to the sink for the given pieces: each piece that
/// found a pooled buffer and is a C string once terminated, terminated, in
/// the order of the pieces. `starved` lists the pieces that found no buffer.
pub open spec fn deliveries(parts: Seq<Seq<u8>>, starved: Seq<usize>) -> Seq<Seq<u8>>
    decreases parts.len(),
{
    if parts.len() == 0 {
        Seq::empty()
    } else {
        let rest = deliveries(parts.drop_last(), starved);
        if sendable(parts.last()) && !starved.contains((parts.len() - 1) as usize) {
            rest.push(terminated(parts.last()))
        } else {
            rest
        }
    }
}

/// A piece that is not among the given ones does not matter to what is
/// delivered of them.
pub proof fn lemma_deliveries_ignore(parts: Seq<Seq<u8>>, starved: Seq<usize>, index: usize)
    requires
        index >= parts.len(),
    ensures
        deliveries(parts, starved.push(index)) == deliveries(parts, starved),
    decreases parts.len(),
{
    if parts.len() > 0 {
        lemma_deliveries_ignore(parts.drop_last(), starved, index);
        let last = (parts.len() - 1) as usize;
        if starved.contains(last) {
            let k = choose|k: int| 0 <= k < starved.len() && starved[k] == last;
            assert(starved.push(index)[k] == last);
        }
        if starved.push(index).contains(last) {
            let k = choose|k: int|
                0 <= k < starved.push(index).len() && starved.push(index)[k] == last;
            assert(starved[k] == last);
        }
    }
}

/// Whether `message` is one of the given pieces, terminated: a piece that
/// found a buffer and is a C string then.
pub open spec fn is_delivery_of(parts: Seq<Seq<u8>>, starved: Seq<usize>, message: Seq<u8>) -> bool {
    exists|i: int|
        0 <= i < parts.len() && sendable(#[trigger] parts[i]) && !starved.contains(i as usize)
            && terminated(parts[i]) == message
}

/// Whatever the pool had: there are no more messages than pieces, and each
/// message is one of the pieces, terminated.
pub proof fn lemma_deliveries_are_pieces(parts: Seq<Seq<u8>>, starved: Seq<usize>)
    ensures
        deliveries(parts, starved).len() <= parts.len(),
        forall|j: int|
            0 <= j < deliveries(parts, starved).len() ==> is_delivery_of(
                parts,
                starved,
                #[trigger] deliveries(parts, starved)[j],
            ),
    decreases parts.len(),
{
    if parts.len() > 0 {
        let front = parts.drop_last();
        let last = parts.len() - 1;
        lemma_deliveries_are_pieces(front, starved);
        assert forall|j: int| 0 <= j < deliveries(parts, starved).len() implies is_delivery_of(
            parts,
            starved,
            #[trigger] deliveries(parts, starved)[j],
        ) by {
            let message = deliveries(parts, starved)[j];
            if j < deliveries(front, starved).len() {
                assert(message == deliveries(front, starved)[j]);
                assert(is_delivery_of(front, starved, message));
                let i = choose|i: int|
                    0 <= i < front.len() && sendable(#[trigger] front[i]) && !starved.contains(
                        i as usize,
                    ) && terminated(front[i]) == message;
                assert(parts[i] == front[i]);
            } else {
                assert(sendable(parts[last]) && !starved.contains(last as usize));
                assert(terminated(parts[last]) == message);
            }
        }
    }
}

/// Where every piece found a buffer and is a C string once terminated,
/// each piece is delivered, terminated, in its place.
pub proof fn lemma_deliveries_all(parts: Seq<Seq<u8>>)
    requires
        forall|i: int| 0 <= i < parts.len() ==> sendable(#[trigger] parts[i]),
    ensures
        deliveries(parts, Seq::empty()).len() == parts.len(),
        forall|i: int|
            0 <= i < parts.len() ==> (#[trigger] deliveries(parts, Seq::empty())[i])
                == terminated(parts[i]),
    decreases parts.len(),
{
    if parts.len() > 0 {
        let front = parts.drop_last();
        assert forall|i: int| 0 <= i < front.len() implies sendable(#[trigger] front[i]) by {
            assert(front[i] == parts[i]);
        }
        lemma_deliveries_all(front);
        assert(sendable(parts[parts.len() - 1]));
        assert(!Seq::<usize>::empty().contains((parts.len() - 1) as usize));
    }
}

/// The bytes of each buffer.
pub open spec fn contents(buffers: Seq<PooledBuffer>) -> Seq<Seq<u8>> {
    Seq::new(buffers.len(), |i: int| buffers[i]@)
}

/// Whether each of the buffers came out of pool `id`.
pub open spec fn all_of(buffers: Seq<PooledBuffer>, id: int) -> bool {
    forall|i: int| 0 <= i < buffers.len() ==> (#[trigger] buffers[i]).home() == id
}

/// The slot keys of the buffers.
pub open spec fn slots_of(buffers: Seq<PooledBuffer>) -> Set<usize> {
    Set::new(|k: usize| exists|i: int| 0 <= i < buffers.len() && (#[trigger] buffers[i]).slot() == k)
}

/// The slot key of the buffer, if there is one.
pub open spec fn slot_of(buffer: Option<PooledBuffer>) -> Set<usize> {
    match buffer {
        Some(b) => set![b.slot()],
        None => Set::empty(),
    }
}

/// The slot keys of some buffers are those of all of them but the last,
/// and that of the last.
pub proof fn lemma_slots_of_push(buffers: Seq<PooledBuffer>)
    requires
        buffers.len() > 0,
    ensures
        slots_of(buffers) == slots_of(buffers.drop_last()).insert(buffers.last().slot()),
{
    let front = buffers.drop_last();
    assert forall|k: usize| slots_of(buffers).contains(k) implies slots_of(front).insert(
        buffers.last().slot(),
    ).contains(k) by {
        let i = choose|i: int| 0 <= i < buffers.len() && (#[trigger] buffers[i]).slot() == k;
        if i < front.len() {
            assert(front[i].slot() == k);
        }
    }
    assert forall|k: usize|
        slots_of(front).insert(buffers.last().slot()).contains(k) implies slots_of(
        buffers,
    ).contains(k) by {
        if slots_of(front).contains(k) {
            let i = choose|i: int| 0 <= i < front.len() && (#[trigger] front[i]).slot() == k;
            assert(buffers[i].slot() == k);
        } else {
            assert(buffers[buffers.len() - 1].slot() == k);
        }
    }
    assert(slots_of(buffers) =~= slots_of(front).insert(buffers.last().slot()));
}

/// Takes the pool's answer for one piece of a message. With a buffer that
/// holds the piece: the buffer is terminated and, if it is a C string then,
/// added to the messages; else it goes back to the pool. Without a buffer
/// the piece is listed as starved.
pub fn keep_piece(
    pool: &mut BufferPool,
    messages: &mut BufferList,
    starved: &mut Vec<usize>,
    i: usize,
    copy: Result<PooledBuffer, PoolError>,
)
    ensures
        match copy {
            Ok(b) if sendable(b@) => {
                &&& list_items(*final(messages)).len() == list_items(*old(messages)).len() + 1
                &&& list_items(*final(messages)).drop_last() == list_items(*old(messages))
                &&& list_items(*final(messages)).last()@ == terminated(b@)
                &&& list_items(*final(messages)).last().home() == b.home()
                &&& list_items(*final(messages)).last().slot() == b.slot()
                &&& contents(list_items(*final(messages))) == contents(
                    list_items(*old(messages)),
                ).push(terminated(b@))
                &&& final(starved)@ == old(starved)@
                &&& final(pool)@ == old(pool)@
            },
            Ok(b) => {
                &&& list_items(*final(messages)) == list_items(*old(messages))
                &&& final(starved)@ == old(starved)@
                &&& final(pool)@ == old(pool)@.give_back(b.home(), b.slot())
            },
            Err(_) => {
                &&& list_items(*final(messages)) == list_items(*old(messages))
                &&& final(starved)@ == old(starved)@.push(i)
                &&& final(pool)@ == old(pool)@
            },
        },
{
    match copy {
        Ok(buffer) => {
            let mut buffer = buffer;
            let ok: bool = buffer.as_terminated().is_some();
            if ok {
                list_push(messages, buffer);
                assert(list_items(*messages).drop_last() =~= list_items(*old(messages)));
                assert(contents(list_items(*messages)) =~= contents(
                    list_items(*old(messages)),
                ).push(buffer@));
            } else {
                pool.release(buffer);
            }
        },
        Err(_) => {
            starved.push(i);
        },
    }
}

/// One record as the sink takes it, by what it holds.
pub enum SinkRecord {
    /// Priority, terminated tag and terminated message.
    Legacy { priority: Priority, tag: Seq<u8>, message: Seq<u8> },
    /// Log buffer, priority, terminated tag, the terminated name of the
    /// source file if there is one, the line in it, and the terminated
    /// message.
    Structured {
        buffer: Buffer,
        priority: Priority,
        tag: Seq<u8>,
        file: Option<Seq<u8>>,
        line: u32,
        message: Seq<u8>,
    },
}

/// One record for the sink. The bytes are borrowed from the batch and the
/// tag cache, and end in a terminator.
#[derive(Debug)]
pub enum SinkCall<'a> {
    /// Priority, tag and message.
    Legacy { priority: Priority, tag: &'a [u8], message: &'a [u8] },
    /// Log buffer, priority, tag, source file and line, and message.
    Structured {
        buffer: Buffer,
        priority: Priority,
        tag: &'a [u8],
        file: Option<&'a [u8]>,
        line: u32,
        message: &'a [u8],
    },
}

impl<'a> View for SinkCall<'a> {
    type V = SinkRecord;

    open spec fn view(&self) -> SinkRecord {
        match *self {
            SinkCall::Legacy { priority, tag, message } => SinkRecord::Legacy {
                priority,
                tag: tag@,
                message: message@,
            },
            SinkCall::Structured { buffer, priority, tag, file, line, message } => {
                SinkRecord::Structured {
                    buffer,
                    priority,
                    tag: tag@,
                    file: match file {
                        Some(f) => Some(f@),
                        None => None,
                    },
                    line,
                    message: message@,
                }
            },
        }
    }
}

/// What a batch holds: how and with what each record is made, and the
/// terminated messages in the order in which they go out.
pub struct BatchView {
    pub path: SinkPath,
    pub priority: Priority,
    pub buffer: Buffer,
    pub file: Option<Seq<u8>>,
    pub line: u32,
    pub messages: Seq<Seq<u8>>,
}

impl BatchView {
    /// Record `i` of the batch, under the given terminated tag. On the
    /// legacy path the log buffer and the source location are left out.
    pub open spec fn record(self, tag: Seq<u8>, i: int) -> SinkRecord {
        match self.path {
            SinkPath::Legacy => SinkRecord::Legacy {
                priority: self.priority,
                tag,
                message: self.messages[i],
            },
            SinkPath::Extended => SinkRecord::Structured {
                buffer: self.buffer,
                priority: self.priority,
                tag,
                file: self.file,
                line: self.line,
                message: self.messages[i],
            },
        }
    }

    /// The records of the batch under the given terminated tag, in order.
    pub open spec fn records(self, tag: Seq<u8>) -> Seq<SinkRecord> {
        Seq::new(self.messages.len(), |i: int| self.record(tag, i))
    }

    /// How many pooled buffers a batch with this content holds.
    pub open spec fn held(self) -> nat {
        self.messages.len() + if self.file is Some {
            1nat
        } else {
            0nat
        }
    }
}

/// The outcome of one flush: the messages that are ready for the sink, with
/// what goes into each record beside them.
pub struct Batch {
    tag: PooledTag,
    path: SinkPath,
    priority: Priority,
    buffer: Buffer,
    file: Option<PooledBuffer>,
    line: u32,
    messages: BufferList,
    whole: bool,
    starved: Vec<usize>,
}

impl View for Batch {
    type V = BatchView;

    closed spec fn view(&self) -> BatchView {
        BatchView {
            path: self.path,
            priority: self.priority,
            buffer: self.buffer,
            file: match self.file {
                Some(f) => Some(f@),
                None => None,
            },
            line: self.line,
            messages: contents(list_items(self.messages)),
        }
    }
}

impl Batch {
    /// The handle to the tag that the records carry.
    pub closed spec fn tag(&self) -> &PooledTag {
        &self.tag
    }

    /// The pieces of the message that found no pooled buffer, by index.
    pub closed spec fn starved(&self) -> Seq<usize> {
        self.starved@
    }

    /// Whether the message was short enough to go out in one piece.
    pub closed spec fn whole(&self) -> bool {
        self.whole
    }

    /// Whether every buffer that the batch holds came out of pool `id`.
    pub closed spec fn homed(&self, id: int) -> bool {
        &&& all_of(list_items(self.messages), id)
        &&& self.file matches Some(f) ==> f.home() == id
    }

    /// The slot keys of the buffers that the batch holds.
    pub closed spec fn slots(&self) -> Set<usize> {
        slots_of(list_items(self.messages)).union(slot_of(self.file))
    }

    /// Puts a batch together from its parts.
    pub(crate) fn assemble(
        tag: PooledTag,
        path: SinkPath,
        priority: Priority,
        buffer: Buffer,
        file: Option<PooledBuffer>,
        line: u32,
        messages: BufferList,
        whole: bool,
        starved: Vec<usize>,
    ) -> (batch: Batch)
        ensures
            batch@ == (BatchView {
                path,
                priority,
                buffer,
                file: match file {
                    Some(f) => Some(f@),
                    None => None,
                },
                line,
                messages: contents(list_items(messages)),
            }),
            *batch.tag() == tag,
            batch.starved() == starved@,
            batch.whole() == whole,
            forall|id: int|
                #[trigger] batch.homed(id) == (all_of(list_items(messages), id) && (file matches Some(
                    f,
                ) ==> f.home() == id)),
            batch.slots() == slots_of(list_items(messages)).union(slot_of(file)),
    {
        Batch { tag, path, priority, buffer, file, line, messages, whole, starved }
    }

    /// Returns how many records the batch holds.
    pub fn len(&self) -> (len: usize)
        ensures
            len == self@.messages.len(),
    {
        list_len(&self.messages)
    }

    /// Returns the indices of the pieces that found no pooled buffer.
    pub fn starved_pieces(&self) -> (starved: &Vec<usize>)
        ensures
            starved@ == self.starved(),
    {
        &self.starved
    }

    /// Returns the priority that the records carry.
    pub fn priority(&self) -> (priority: Priority)
        ensures
            priority == self@.priority,
    {
        self.priority
    }

    /// Returns the handle to the tag that the records carry.
    pub fn tag_handle(&self) -> (tag: &PooledTag)
        ensures
            tag == self.tag(),
    {
        &self.tag
    }

    /// Returns a walk over the indices of the records.
    pub fn messages(&self) -> (iter: MessageIter)
        ensures
            iter.remaining() == Seq::new(self@.messages.len(), |k: int| k as usize),
            iter is Single <==> self.whole() && self@.messages.len() <= 1,
    {
        let len = list_len(&self.messages);
        if self.whole && len <= 1 {
            let iter = MessageIter::Single(len == 1);
            assert(iter.remaining() =~= Seq::new(self@.messages.len(), |k: int| k as usize));
            iter
        } else {
            let iter = MessageIter::Multi(0, len);
            assert(iter.remaining() =~= Seq::new(self@.messages.len(), |k: int| k as usize));
            iter
        }
    }

    /// Returns record `i`, with the tag's bytes from the cache, or nothing
    /// if the batch has no such record or the cache does not hold the tag.
    pub fn record<'a>(&'a self, tags: &'a TagCache, i: usize) -> (call: Option<SinkCall<'a>>)
        ensures
            i < self@.messages.len() && tags.owns(self.tag()) ==> (call matches Some(c) && c@
                == self@.record(tags@[self.tag().index()]->0.bytes, i as int)),
            !(i < self@.messages.len() && tags.owns(self.tag())) ==> call is None,
    {
        if i >= list_len(&self.messages) {
            return None;
        }
        let tag = match tags.bytes(&self.tag) {
            Some(tag) => tag,
            None => {
                return None;
            },
        };
        let message = list_get(&self.messages, i).as_bytes();
        match self.path {
            SinkPath::Legacy => Some(SinkCall::Legacy { priority: self.priority, tag, message }),
            SinkPath::Extended => {
                let file = match &self.file {
                    Some(f) => Some(f.as_bytes()),
                    None => None,
                };
                Some(
                    SinkCall::Structured {
                        buffer: self.buffer,
                        priority: self.priority,
                        tag,
                        file,
                        line: self.line,
                        message,
                    },
                )
            },
        }
    }

    /// Ends the batch: every buffer that it holds goes back to the pool and
    /// its handle to the tag goes back to the cache. Returns whether that
    /// cleared the tag from the cache.
    ///
    /// The pool has to be the one that the buffers came out of; a buffer of
    /// another pool is dropped without being given back. A batch that is
    /// dropped instead of being ended gives nothing back: its slots stay
    /// taken and its share of the tag stays counted.
    pub fn finish(self, pool: &mut BufferPool, tags: &mut TagCache) -> (cleared: bool)
        ensures
            old(tags).owns(self.tag()) ==> final(tags)@ == with_release(
                old(tags)@,
                self.tag().index(),
            ) && cleared == (old(tags)@[self.tag().index()]->0.refs <= 1),
            !old(tags).owns(self.tag()) ==> final(tags)@ == old(tags)@ && !cleared,
            final(tags).pool() == if cleared {
                old(tags).pool().give_back(old(tags)@[self.tag().index()]->0.home, self.tag().slot())
            } else {
                old(tags).pool()
            },
            final(pool)@.id == old(pool)@.id,
            self.homed(old(pool)@.id) ==> final(pool)@.live == old(pool)@.live.difference(
                self.slots(),
            ),
            self.homed(old(pool)@.id) && old(pool)@.out >= self@.held() ==> final(pool)@.out
                == old(pool)@.out - self@.held(),
            self@.held() == 0 ==> final(pool)@ == old(pool)@,
    {
        let Batch { tag, path, priority, buffer, file, line, messages, whole, starved } = self;
        let mut messages = messages;
        let ghost all = list_items(messages);
        let ghost total = all.len();
        let ghost start = pool@;
        let ghost own = self.homed(start.id);
        let ghost mut popped: Seq<PooledBuffer> = Seq::empty();
        let ghost named = file;
        proof {
            assert(slots_of(popped) =~= Set::<usize>::empty());
            assert(start.live.difference(slots_of(popped)) =~= start.live);
            assert(slots_of(all) =~= slots_of(all).union(slots_of(popped)));
        }
        loop
            invariant
                list_items(messages).len() + popped.len() == total,
                pool@.id == start.id,
                slots_of(all) == slots_of(list_items(messages)).union(slots_of(popped)),
                own ==> all_of(list_items(messages), start.id),
                own ==> pool@.live == start.live.difference(slots_of(popped)),
                own && start.out >= total ==> pool@.out == start.out - popped.len(),
                total == 0 ==> pool@ == start,
            ensures
                list_items(messages).len() == 0,
                popped.len() == total,
                pool@.id == start.id,
                slots_of(all) == slots_of(list_items(messages)).union(slots_of(popped)),
                own ==> pool@.live == start.live.difference(slots_of(popped)),
                own && start.out >= total ==> pool@.out == start.out - total,
                total == 0 ==> pool@ == start,
            decreases list_items(messages).len(),
        {
            let ghost before = list_items(messages);
            let ghost taken = popped;
            match list_pop(&mut messages) {
                Some(b) => {
                    proof {
                        popped = taken.push(b);
                        assert(popped.drop_last() =~= taken);
                        lemma_slots_of_push(before);
                        lemma_slots_of_push(popped);
                        assert(slots_of(all) =~= slots_of(list_items(messages)).union(
                            slots_of(popped),
                        ));
                        if own {
                            assert(before[before.len() - 1].home() == start.id);
                            assert forall|i: int|
                                0 <= i < list_items(messages).len() implies (
                            #[trigger] list_items(messages)[i]).home() == start.id by {
                                assert(list_items(messages)[i] == before[i]);
                            }
                            assert(start.live.difference(slots_of(taken)).remove(b.slot())
                                =~= start.live.difference(slots_of(popped)));
                        }
                    }
                    pool.release(b);
                },
                None => {
                    break ;
                },
            }
        }
        proof {
            assert(slots_of(list_items(messages)) =~= Set::<usize>::empty());
            assert(slots_of(all) =~= slots_of(popped));
            if own {
                assert(start.live.difference(slots_of(all)).difference(slot_of(named))
                    =~= start.live.difference(slots_of(all).union(slot_of(named))));
                if let Some(f) = named {
                    assert(start.live.difference(slots_of(all)).remove(f.slot())
                        =~= start.live.difference(slots_of(all)).difference(slot_of(named)));
                } else {
                    assert(start.live.difference(slots_of(all)) =~= start.live.difference(
                        slots_of(all),
                    ).difference(slot_of(named)));
                }
            }
        }
        match file {
            Some(f) => {
                pool.release(f);
            },
            None => {},
        }
        tags.release(tag)
    }
}

} // verus!

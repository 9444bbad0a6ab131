//! The writer that collects the bytes of one event, and the flush that turns
//! them into a batch of records.

use crate::batch::{
    all_of, contents, deliveries, is_delivery_of, keep_piece, lemma_deliveries_all,
    lemma_deliveries_are_pieces, lemma_deliveries_ignore, lemma_slots_of_push, list_items,
    list_new, list_push, slot_of, slots_of, Batch, BatchView, SinkPath,
};
use crate::chunk::{
    concat, count_pieces, has_nul, lemma_piece_count_rounds_up, lemma_piece_len,
    lemma_pieces_concat, lemma_short_message_is_one_piece, piece, piece_at, piece_count, pieces,
    sendable, terminated, MAX_LOG_LEN,
};
use crate::logging::{level_name, Buffer, Priority};
use crate::pool::{BufferPool, PoolError, PoolView, PooledBuffer};
use crate::tag::{
    is_first_free, with_clone, with_release, with_tag, PooledTag, TagCache, TagError, TagSlot,
};
use tracing_core::Level;
use vstd::prelude::*;
use vstd::string::StringSliceAdditionalSpecFns;
use vstd::utf8::encode_utf8;

verus! {

/// Where in the source an event came from.
pub struct Location {
    file: PooledBuffer,
    line: u32,
}

/// The writer for one event: it collects the formatted bytes and is flushed
/// once.
pub struct AndroidLogWriter {
    tag: PooledTag,
    message: PooledBuffer,
    priority: Priority,
    buffer: Buffer,
    location: Option<Location>,
    path: SinkPath,
}

/// Makes the writers of one logger: all carry its tag, log buffer and sink
/// path.
pub struct AndroidLogMakeWriter {
    tag: PooledTag,
    buffer: Buffer,
    path: SinkPath,
}

/// Where in the source an event came from, by what it holds: the name of
/// the file and the line in it.
pub struct Place {
    pub file: Seq<u8>,
    pub line: u32,
}

/// What a writer holds.
pub struct WriterView {
    pub path: SinkPath,
    pub priority: Priority,
    pub buffer: Buffer,
    pub message: Seq<u8>,
    pub location: Option<Place>,
}

impl WriterView {
    /// Whether a flush sends nothing: the message is empty, or the platform
    /// was asked and would not log it.
    pub open spec fn silent(self, loggable: bool) -> bool {
        self.message.len() == 0 || (self.path is Extended && !loggable)
    }

    /// Whether the records of a flush name the source file: only on the
    /// extended path, and only if the file's name is a C string once
    /// terminated.
    pub open spec fn located(self, loggable: bool) -> bool {
        &&& !self.silent(loggable)
        &&& self.path is Extended
        &&& self.location matches Some(place)
        &&& sendable(place.file)
    }

    /// The batch that a flush leaves, where `starved` lists the pieces of
    /// the message that found no pooled buffer.
    pub open spec fn flushed(self, loggable: bool, starved: Seq<usize>) -> BatchView {
        BatchView {
            path: self.path,
            priority: self.priority,
            buffer: self.buffer,
            file: if self.located(loggable) {
                Some(terminated(self.location->0.file))
            } else {
                None
            },
            line: if self.located(loggable) {
                self.location->0.line
            } else {
                0
            },
            messages: if self.silent(loggable) {
                Seq::empty()
            } else {
                deliveries(pieces(self.message), starved)
            },
        }
    }

    /// How many pooled buffers a writer with this content holds.
    pub open spec fn held(self) -> nat {
        if self.location is Some {
            2
        } else {
            1
        }
    }
}

impl View for AndroidLogWriter {
    type V = WriterView;

    closed spec fn view(&self) -> WriterView {
        WriterView {
            path: self.path,
            priority: self.priority,
            buffer: self.buffer,
            message: self.message@,
            location: match self.location {
                Some(place) => Some(Place { file: place.file@, line: place.line }),
                None => None,
            },
        }
    }
}

impl AndroidLogWriter {
    /// The writer's handle to the tag.
    pub closed spec fn tag(&self) -> &PooledTag {
        &self.tag
    }

    /// Whether every buffer that the writer holds came out of pool `id`.
    pub closed spec fn homed(&self, id: int) -> bool {
        &&& self.message.home() == id
        &&& self.location matches Some(place) ==> place.file.home() == id
    }

    /// The slot keys of the buffers that the writer holds.
    pub closed spec fn slots(&self) -> Set<usize> {
        set![self.message.slot()].union(
            slot_of(
                match self.location {
                    Some(place) => Some(place.file),
                    None => None,
                },
            ),
        )
    }

    /// Whether the writer's buffers are checked out of the given pool: they
    /// came out of it, each on a slot of its own, and their slots are taken
    /// in it.
    pub closed spec fn checked_out_of(&self, pool: PoolView) -> bool {
        &&& self.message.home() == pool.id
        &&& pool.live.contains(self.message.slot())
        &&& self.location matches Some(place) ==> {
            &&& place.file.home() == pool.id
            &&& pool.live.contains(place.file.slot())
            &&& place.file.slot() != self.message.slot()
        }
    }

    /// A writer whose buffers are checked out of a pool holds buffers that
    /// came out of it.
    pub proof fn lemma_checked_out_is_homed(&self, pool: PoolView)
        requires
            self.checked_out_of(pool),
        ensures
            self.homed(pool.id),
            self.slots().subset_of(pool.live),
    {
    }

    /// Returns the priority that the event is logged at.
    pub fn priority(&self) -> (priority: Priority)
        ensures
            priority == self@.priority,
    {
        self.priority
    }

    /// Returns the writer's handle to the tag.
    pub fn tag_handle(&self) -> (tag: &PooledTag)
        ensures
            tag == self.tag(),
    {
        &self.tag
    }

    /// Returns whether the platform has to be asked, before the flush, if
    /// it would log the message at all.
    pub fn needs_probe(&self) -> (ask: bool)
        ensures
            ask == (self@.path is Extended),
    {
        match self.path {
            SinkPath::Extended => true,
            SinkPath::Legacy => false,
        }
    }

    /// Returns what the platform is to be asked before the flush: whether
    /// it would log a message of this priority and terminated tag. There is
    /// nothing to ask on the legacy path, nor where the cache does not hold
    /// the writer's tag.
    pub fn probe<'a>(&self, tags: &'a TagCache) -> (ask: Option<(Priority, &'a [u8])>)
        ensures
            self@.path is Extended && tags.owns(self.tag()) ==> (ask matches Some(q) && q.0
                == self@.priority && q.1@ == tags@[self.tag().index()]->0.bytes),
            !(self@.path is Extended && tags.owns(self.tag())) ==> ask is None,
    {
        match self.path {
            SinkPath::Legacy => None,
            SinkPath::Extended => match tags.bytes(&self.tag) {
                Some(tag) => Some((self.priority, tag)),
                None => None,
            },
        }
    }

    /// Returns what a flush is to take as the platform's word, given its
    /// answer if it was asked. Its answer stands. Where it was not asked,
    /// a writer on the legacy path logs; one on the extended path, whose
    /// tag the cache then does not hold, does not.
    pub fn loggable(&self, answer: Option<bool>) -> (loggable: bool)
        ensures
            loggable == match answer {
                Some(yes) => yes,
                None => self@.path is Legacy,
            },
    {
        match answer {
            Some(yes) => yes,
            None => match self.path {
                SinkPath::Legacy => true,
                SinkPath::Extended => false,
            },
        }
    }

    /// Returns the bytes written so far.
    pub fn message(&self) -> (bytes: &[u8])
        ensures
            bytes@ == self@.message,
    {
        self.message.as_bytes()
    }

    /// Appends `buf` to the message and returns how many bytes were taken,
    /// which is all of them.
    pub fn write(&mut self, buf: &[u8]) -> (taken: usize)
        ensures
            taken == buf@.len(),
            final(self)@ == (WriterView { message: old(self)@.message + buf@, ..old(self)@ }),
            final(self).tag() == old(self).tag(),
            final(self).slots() == old(self).slots(),
            forall|id: int| #[trigger] final(self).homed(id) == old(self).homed(id),
            forall|pool: PoolView| #[trigger]
                final(self).checked_out_of(pool) == old(self).checked_out_of(pool),
    {
        self.message.write(buf);
        buf.len()
    }

    /// Flushes the writer, which ends it, and returns the batch of messages
    /// that are ready for the sink.
    ///
    /// `loggable` is the platform's answer to whether it would log a message
    /// of this priority and tag; it only counts on the extended path. Where
    /// it says no, or the message is empty, the batch is empty. Else a
    /// message shorter than [`MAX_LOG_LEN`] goes out whole, and a longer one
    /// in pieces, each copied to a pooled buffer of its own. A piece for
    /// which the pool has no buffer is listed as starved, and a message or
    /// piece that is no C string once terminated is left out.
    ///
    /// The buffers that the batch does not take over go back to the pool,
    /// which has to be the one that the writer's buffers came out of. The
    /// batch has to be ended by [`Batch::finish`]: a writer or a batch that
    /// is dropped instead gives nothing back, and its slots stay taken.
    pub fn flush(self, pool: &mut BufferPool, loggable: bool) -> (batch: Batch)
        ensures
            batch@ == self@.flushed(loggable, batch.starved()),
            batch.tag() == self.tag(),
            batch.whole() == (self@.message.len() < MAX_LOG_LEN),
            self@.silent(loggable) || self@.message.len() < MAX_LOG_LEN ==> batch.starved()
                == Seq::<usize>::empty(),
            forall|k: int|
                0 <= k < batch.starved().len() ==> (#[trigger] batch.starved()[k]) < piece_count(
                    self@.message.len(),
                ),
            final(pool)@.id == old(pool)@.id,
            self.homed(old(pool)@.id) ==> batch.homed(old(pool)@.id),
            self.homed(old(pool)@.id) && old(pool)@.out >= self@.held() ==> final(pool)@.out
                == old(pool)@.out - self@.held() + batch@.held(),
            self.checked_out_of(old(pool)@) ==> final(pool)@.live == old(pool)@.live.difference(
                self.slots(),
            ).union(batch.slots()),
            self.checked_out_of(old(pool)@) ==> batch.slots().disjoint(
                old(pool)@.live.difference(self.slots()),
            ),
    {
        let ghost before = self@;
        let ghost start = pool@;
        let ghost own = self.homed(start.id);
        let ghost all_out = self.checked_out_of(start);
        let ghost mine = self.slots();
        let ghost first = self.message;
        let AndroidLogWriter { tag, message, priority, buffer, location, path } = self;
        let len: usize = message.len();
        let whole: bool = len < MAX_LOG_LEN;
        let extended: bool = match path {
            SinkPath::Extended => true,
            SinkPath::Legacy => false,
        };
        let mut messages = list_new();
        let mut starved: Vec<usize> = Vec::new();
        if len == 0 || (extended && !loggable) {
            pool.release(message);
            match location {
                Some(Location { file, line }) => {
                    pool.release(file);
                },
                None => {},
            }
            assert(contents(list_items(messages)) =~= Seq::<Seq<u8>>::empty());
            let batch = Batch::assemble(
                tag,
                path,
                priority,
                buffer,
                None,
                0,
                messages,
                whole,
                starved,
            );
            assert(batch.homed(start.id));
            assert(slots_of(list_items(messages)) =~= Set::<usize>::empty());
            assert(all_out ==> pool@.live =~= start.live.difference(mine).union(batch.slots()));
            return batch;
        }
        let mut file: Option<PooledBuffer> = None;
        let mut line: u32 = 0;
        match location {
            Some(Location { file: name, line: at }) => {
                let mut name = name;
                let named: bool = extended && name.as_terminated().is_some();
                if named {
                    file = Some(name);
                    line = at;
                } else {
                    pool.release(name);
                }
            },
            None => {},
        }
        let ghost kept: nat = if file is Some {
            1
        } else {
            0
        };
        let ghost named = file;
        let ghost located = pool@.live;
        assert(slots_of(list_items(messages)) =~= Set::<usize>::empty());
        assert(own && start.out >= before.held() ==> pool@.out == start.out - before.held() + 1
            + kept);
        if whole {
            let mut message = message;
            let ok: bool = message.as_terminated().is_some();
            proof {
                lemma_short_message_is_one_piece(before.message);
                let parts = pieces(before.message);
                assert(parts.drop_last() =~= Seq::<Seq<u8>>::empty());
                assert(deliveries(parts.drop_last(), starved@) =~= Seq::<Seq<u8>>::empty());
                assert(!starved@.contains(0usize));
            }
            if ok {
                list_push(&mut messages, message);
                assert(contents(list_items(messages)) =~= seq![terminated(before.message)]);
                assert(deliveries(pieces(before.message), starved@) =~= seq![
                    terminated(before.message),
                ]);
                assert(own ==> all_of(list_items(messages), start.id));
                proof {
                    lemma_slots_of_push(list_items(messages));
                    assert(list_items(messages).drop_last() =~= Seq::<PooledBuffer>::empty());
                    assert(slots_of(list_items(messages).drop_last()) =~= Set::<usize>::empty());
                    assert(all_out ==> pool@.live =~= start.live.difference(mine).union(
                        slots_of(list_items(messages)).union(slot_of(named)),
                    ));
                }
            } else {
                pool.release(message);
                assert(contents(list_items(messages)) =~= Seq::<Seq<u8>>::empty());
                assert(all_out ==> pool@.live =~= start.live.difference(mine).union(
                    slots_of(list_items(messages)).union(slot_of(named)),
                ));
            }
        } else {
            let count: usize = count_pieces(len);
            let ghost base = pool@.out;
            let mut i: usize = 0;
            assert(contents(list_items(messages)) =~= Seq::<Seq<u8>>::empty());
            assert(pieces(before.message).take(0) =~= Seq::<Seq<u8>>::empty());
            while i < count
                invariant
                    i <= count,
                    count == piece_count(before.message.len()),
                    message@ == before.message,
                    pool@.id == start.id,
                    contents(list_items(messages)) == deliveries(
                        pieces(before.message).take(i as int),
                        starved@,
                    ),
                    forall|k: int| 0 <= k < starved@.len() ==> (#[trigger] starved@[k]) < i,
                    all_of(list_items(messages), start.id),
                    pool@.out == base + list_items(messages).len(),
                    message.slot() == first.slot(),
                    all_out ==> pool@.live == located.union(slots_of(list_items(messages))),
                    all_out ==> located.contains(first.slot()),
                    all_out ==> !slots_of(list_items(messages)).contains(first.slot()),
                    all_out ==> start.live.difference(mine).subset_of(located),
                    all_out ==> slots_of(list_items(messages)).disjoint(
                        start.live.difference(mine),
                    ),
                decreases count - i,
            {
                let ghost parts = pieces(before.message).take(i + 1);
                let ghost items = list_items(messages);
                proof {
                    assert(parts.drop_last() =~= pieces(before.message).take(i as int));
                    assert(parts.last() == piece(before.message, i as int));
                    if starved@.contains(i) {
                        let k = choose|k: int| 0 <= k < starved@.len() && starved@[k] == i;
                        assert(starved@[k] < i);
                    }
                    lemma_deliveries_ignore(pieces(before.message).take(i as int), starved@, i);
                    assert(starved@.push(i).last() == i);
                }
                let part = piece_at(message.as_bytes(), i);
                let copy = pool.acquire_with(part);
                let ghost answer = copy;
                keep_piece(pool, &mut messages, &mut starved, i, copy);
                proof {
                    if let Ok(b) = answer {
                        if sendable(b@) {
                            lemma_slots_of_push(list_items(messages));
                        }
                        assert(all_out ==> pool@.live =~= located.union(
                            slots_of(list_items(messages)),
                        ));
                    }
                    assert forall|j: int| 0 <= j < list_items(messages).len() implies (
                    #[trigger] list_items(messages)[j]).home() == start.id by {
                        if j < items.len() {
                            assert(list_items(messages)[j] == items[j]);
                        }
                    }
                }
                i = i + 1;
            }
            assert(pieces(before.message).take(count as int) =~= pieces(before.message));
            pool.release(message);
            assert(all_out ==> pool@.live =~= start.live.difference(mine).union(
                slots_of(list_items(messages)).union(slot_of(named)),
            ));
        }
        let batch = Batch::assemble(
            tag,
            path,
            priority,
            buffer,
            file,
            line,
            messages,
            whole,
            starved,
        );
        assert(own ==> batch.homed(start.id));
        batch
    }
}

/// The pool after the buffers that the pool had for a writer, if any, were
/// released into it: first the one for the message, then the one for the
/// file's name.
pub open spec fn returned(
    pool: PoolView,
    message: Result<PooledBuffer, PoolError>,
    file: Option<Result<PooledBuffer, PoolError>>,
) -> PoolView {
    let first = match message {
        Ok(m) => pool.give_back(m.home(), m.slot()),
        Err(_) => pool,
    };
    match file {
        Some(Ok(f)) => first.give_back(f.home(), f.slot()),
        _ => first,
    }
}

impl AndroidLogMakeWriter {
    /// The handle to the tag that the writers share.
    pub closed spec fn tag(&self) -> &PooledTag {
        &self.tag
    }

    /// The log buffer that the writers log to.
    pub closed spec fn buffer(&self) -> Buffer {
        self.buffer
    }

    /// The way in which the records of the writers reach the platform.
    pub closed spec fn path(&self) -> SinkPath {
        self.path
    }

    /// Interns `tag` in the cache and returns a maker of writers that carry
    /// it. The writers leave the choice of the log buffer to the platform
    /// and use the legacy sink path. A tag with a terminator in it is
    /// refused.
    pub fn new(tags: &mut TagCache, tag: String) -> (result: Result<Self, TagError>)
        ensures
            has_nul(encode_utf8(tag@)) ==> (result matches Err(e) && e == TagError::InvalidTag),
            match result {
                Ok(maker) => {
                    &&& !has_nul(encode_utf8(tag@))
                    &&& maker.buffer() == Buffer::Default
                    &&& maker.path() == SinkPath::Legacy
                    &&& is_first_free(old(tags)@, maker.tag().index())
                    &&& final(tags)@ == with_tag(
                        old(tags)@,
                        maker.tag().index(),
                        TagSlot {
                            key: maker.tag().slot(),
                            home: old(tags).pool().id,
                            bytes: encode_utf8(tag@).push(0),
                            refs: 1,
                        },
                    )
                    &&& final(tags).owns(maker.tag())
                    &&& !old(tags).pool().live.contains(maker.tag().slot())
                    &&& final(tags).pool() == old(tags).pool().hand_out(maker.tag().slot())
                },
                Err(e) => {
                    &&& final(tags)@ == old(tags)@
                    &&& final(tags).pool() == old(tags).pool()
                    &&& e == TagError::InvalidTag <==> has_nul(encode_utf8(tag@))
                    &&& e == TagError::PoolExhausted <==> !has_nul(encode_utf8(tag@))
                },
            },
    {
        Self::with_buffer(tags, tag, Buffer::Default)
    }

    /// Like [`AndroidLogMakeWriter::new`], with the log buffer that the
    /// writers log to.
    pub fn with_buffer(tags: &mut TagCache, tag: String, buffer: Buffer) -> (result: Result<
        Self,
        TagError,
    >)
        ensures
            has_nul(encode_utf8(tag@)) ==> (result matches Err(e) && e == TagError::InvalidTag),
            match result {
                Ok(maker) => {
                    &&& !has_nul(encode_utf8(tag@))
                    &&& maker.buffer() == buffer
                    &&& maker.path() == SinkPath::Legacy
                    &&& is_first_free(old(tags)@, maker.tag().index())
                    &&& final(tags)@ == with_tag(
                        old(tags)@,
                        maker.tag().index(),
                        TagSlot {
                            key: maker.tag().slot(),
                            home: old(tags).pool().id,
                            bytes: encode_utf8(tag@).push(0),
                            refs: 1,
                        },
                    )
                    &&& final(tags).owns(maker.tag())
                    &&& !old(tags).pool().live.contains(maker.tag().slot())
                    &&& final(tags).pool() == old(tags).pool().hand_out(maker.tag().slot())
                },
                Err(e) => {
                    &&& final(tags)@ == old(tags)@
                    &&& final(tags).pool() == old(tags).pool()
                    &&& e == TagError::InvalidTag <==> has_nul(encode_utf8(tag@))
                    &&& e == TagError::PoolExhausted <==> !has_nul(encode_utf8(tag@))
                },
            },
    {
        match tags.intern(tag.as_str().as_bytes()) {
            Ok(tag) => Ok(AndroidLogMakeWriter { tag, buffer, path: SinkPath::Legacy }),
            Err(e) => Err(e),
        }
    }

    /// Sets the way in which the records of the writers reach the platform.
    /// It is chosen once, from what the platform can do.
    pub fn with_sink_path(self, path: SinkPath) -> (maker: Self)
        ensures
            maker.path() == path,
            maker.buffer() == self.buffer(),
            maker.tag() == self.tag(),
    {
        AndroidLogMakeWriter { tag: self.tag, buffer: self.buffer, path }
    }

    /// Ends the maker: its handle to the tag goes back to the cache.
    /// Returns whether that cleared the tag from the cache. A maker that is
    /// dropped instead leaves its share of the tag counted.
    pub fn close(self, tags: &mut TagCache) -> (cleared: bool)
        ensures
            old(tags).owns(self.tag()) ==> final(tags)@ == with_release(
                old(tags)@,
                self.tag().index(),
            ) && cleared == (old(tags)@[self.tag().index()]->0.refs <= 1),
            !old(tags).owns(self.tag()) ==> final(tags)@ == old(tags)@ && !cleared,
            final(tags).pool() == if cleared {
                old(tags).pool().give_back(old(tags)@[self.tag().index()]->0.home, self.tag().slot())
            } else {
                old(tags).pool()
            },
    {
        tags.release(self.tag)
    }

    /// Makes a writer from what the pool had for it: the buffer for the
    /// message and, for an event with a source location, the buffer that
    /// holds the file's name. The writer gets a handle of its own to the
    /// tag.
    ///
    /// There is a writer exactly if the cache can give out one more handle
    /// to the tag and the pool had every buffer that was asked for. If the
    /// cache cannot, that is the error, and the tag is unknown; else the
    /// pool is exhausted. Without a writer the buffers that were handed in
    /// go back to the pool and the cache is unchanged.
    pub fn open_with(
        &self,
        pool: &mut BufferPool,
        tags: &mut TagCache,
        priority: Priority,
        line: u32,
        message: Result<PooledBuffer, PoolError>,
        file: Option<Result<PooledBuffer, PoolError>>,
    ) -> (result: Result<AndroidLogWriter, TagError>)
        ensures
            result is Ok <==> old(tags).cloneable(self.tag()) && message is Ok && !(file matches Some(
                Err(_),
            )),
            final(tags).pool() == old(tags).pool(),
            match result {
                Ok(writer) => {
                    &&& writer@ == (WriterView {
                        path: self.path(),
                        priority,
                        buffer: self.buffer(),
                        message: message->Ok_0@,
                        location: match file {
                            Some(Ok(f)) => Some(Place { file: f@, line }),
                            _ => None,
                        },
                    })
                    &&& writer.tag().index() == self.tag().index()
                    &&& writer.tag().slot() == self.tag().slot()
                    &&& final(tags)@ == with_clone(old(tags)@, self.tag().index())
                    &&& final(tags).owns(writer.tag())
                    &&& final(pool)@ == old(pool)@
                    &&& forall|id: int|
                        #[trigger] writer.homed(id) == (message->Ok_0.home() == id && (
                        file matches Some(Ok(f)) ==> f.home() == id))
                    &&& writer.slots() == set![message->Ok_0.slot()].union(
                        match file {
                            Some(Ok(f)) => set![f.slot()],
                            _ => Set::empty(),
                        },
                    )
                    &&& forall|given: PoolView|
                        #[trigger] writer.checked_out_of(given) == {
                            &&& message->Ok_0.home() == given.id
                            &&& given.live.contains(message->Ok_0.slot())
                            &&& file matches Some(Ok(f)) ==> {
                                &&& f.home() == given.id
                                &&& given.live.contains(f.slot())
                                &&& f.slot() != message->Ok_0.slot()
                            }
                        }
                },
                Err(e) => {
                    &&& final(tags)@ == old(tags)@
                    &&& final(pool)@ == returned(old(pool)@, message, file)
                    &&& e == TagError::UnknownTag <==> !old(tags).cloneable(self.tag())
                    &&& e == TagError::PoolExhausted <==> old(tags).cloneable(self.tag())
                },
            },
    {
        let known: bool = tags.can_clone(&self.tag);
        let failure = if known {
            TagError::PoolExhausted
        } else {
            TagError::UnknownTag
        };
        match message {
            Ok(message) => match file {
                Some(Ok(name)) => {
                    if known {
                        Ok(
                            AndroidLogWriter {
                                tag: tags.clone_held(&self.tag),
                                message,
                                priority,
                                buffer: self.buffer,
                                location: Some(Location { file: name, line }),
                                path: self.path,
                            },
                        )
                    } else {
                        pool.release(message);
                        pool.release(name);
                        Err(failure)
                    }
                },
                Some(Err(_)) => {
                    pool.release(message);
                    Err(failure)
                },
                None => {
                    if known {
                        Ok(
                            AndroidLogWriter {
                                tag: tags.clone_held(&self.tag),
                                message,
                                priority,
                                buffer: self.buffer,
                                location: None,
                                path: self.path,
                            },
                        )
                    } else {
                        pool.release(message);
                        Err(failure)
                    }
                },
            },
            Err(_) => {
                match file {
                    Some(Ok(name)) => {
                        pool.release(name);
                    },
                    _ => {},
                }
                Err(failure)
            },
        }
    }

    /// Makes a writer with the given priority and, if there is one, source
    /// location. The writer gets a handle of its own to the tag, an empty
    /// pooled buffer for the message, and one that holds the file's name.
    ///
    /// Fails with `UnknownTag`, before the pool is asked, if the cache
    /// cannot give out one more handle to the tag. Whether the pool has the
    /// buffers is for the pool to say. On failure nothing has changed.
    pub fn open(
        &self,
        pool: &mut BufferPool,
        tags: &mut TagCache,
        priority: Priority,
        location: Option<(&[u8], u32)>,
    ) -> (result: Result<AndroidLogWriter, TagError>)
        ensures
            !old(tags).cloneable(self.tag()) ==> (result matches Err(e) && e
                == TagError::UnknownTag),
            final(tags).pool() == old(tags).pool(),
            final(pool)@.id == old(pool)@.id,
            match result {
                Ok(writer) => {
                    &&& old(tags).cloneable(self.tag())
                    &&& writer@ == (WriterView {
                        path: self.path(),
                        priority,
                        buffer: self.buffer(),
                        message: Seq::empty(),
                        location: match location {
                            Some(place) => Some(Place { file: place.0@, line: place.1 }),
                            None => None,
                        },
                    })
                    &&& writer.tag().index() == self.tag().index()
                    &&& writer.tag().slot() == self.tag().slot()
                    &&& final(tags)@ == with_clone(old(tags)@, self.tag().index())
                    &&& final(tags).owns(writer.tag())
                    &&& writer.checked_out_of(final(pool)@)
                    &&& writer.slots().disjoint(old(pool)@.live)
                    &&& final(pool)@.live == old(pool)@.live.union(writer.slots())
                    &&& final(pool)@.out == old(pool)@.out + writer@.held()
                },
                Err(e) => {
                    &&& final(tags)@ == old(tags)@
                    &&& final(pool)@ == old(pool)@
                    &&& e == TagError::UnknownTag <==> !old(tags).cloneable(self.tag())
                    &&& e == TagError::PoolExhausted <==> old(tags).cloneable(self.tag())
                },
            },
    {
        if !tags.can_clone(&self.tag) {
            return Err(TagError::UnknownTag);
        }
        let message = pool.acquire();
        let ghost asked = pool@;
        let (file, line) = match location {
            Some((name, line)) => {
                if message.is_ok() {
                    (Some(pool.acquire_with(name)), line)
                } else {
                    (None, line)
                }
            },
            None => (None, 0),
        };
        let ghost got = (message, file);
        let result = self.open_with(pool, tags, priority, line, message, file);
        proof {
            if let Ok(m) = got.0 {
                assert(old(pool)@.live.insert(m.slot()).remove(m.slot()) =~= old(pool)@.live);
                if let Some(Ok(f)) = got.1 {
                    assert(asked.live.insert(f.slot()).remove(f.slot()) =~= asked.live);
                    assert(result->Ok_0.checked_out_of(pool@));
                    assert(pool@.live =~= old(pool)@.live.union(result->Ok_0.slots()));
                } else if got.1 is None {
                    if result is Ok {
                        assert(result->Ok_0.checked_out_of(pool@));
                        assert(pool@.live =~= old(pool)@.live.union(result->Ok_0.slots()));
                    }
                }
            }
        }
        result
    }

    /// Makes a writer for an event of which nothing is known: it logs at
    /// `Info` and names no source location.
    pub fn make_writer(&self, pool: &mut BufferPool, tags: &mut TagCache) -> (result: Result<
        AndroidLogWriter,
        TagError,
    >)
        ensures
            !old(tags).cloneable(self.tag()) ==> (result matches Err(e) && e
                == TagError::UnknownTag),
            final(tags).pool() == old(tags).pool(),
            final(pool)@.id == old(pool)@.id,
            match result {
                Ok(writer) => {
                    &&& old(tags).cloneable(self.tag())
                    &&& writer@ == (WriterView {
                        path: self.path(),
                        priority: Priority::Info,
                        buffer: self.buffer(),
                        message: Seq::empty(),
                        location: None,
                    })
                    &&& writer.tag().index() == self.tag().index()
                    &&& writer.tag().slot() == self.tag().slot()
                    &&& final(tags)@ == with_clone(old(tags)@, self.tag().index())
                    &&& final(tags).owns(writer.tag())
                    &&& writer.checked_out_of(final(pool)@)
                    &&& writer.slots().disjoint(old(pool)@.live)
                    &&& final(pool)@.live == old(pool)@.live.union(writer.slots())
                    &&& final(pool)@.out == old(pool)@.out + 1
                },
                Err(e) => {
                    &&& final(tags)@ == old(tags)@
                    &&& final(pool)@ == old(pool)@
                    &&& e == TagError::UnknownTag <==> !old(tags).cloneable(self.tag())
                    &&& e == TagError::PoolExhausted <==> old(tags).cloneable(self.tag())
                },
            },
    {
        self.open(pool, tags, Priority::Info, None)
    }

    /// Makes a writer for an event with the given level and, where both the
    /// file and the line are known, source location. The event is logged at
    /// the priority of its level.
    pub fn make_writer_for(
        &self,
        pool: &mut BufferPool,
        tags: &mut TagCache,
        level: Level,
        file: Option<&str>,
        line: Option<u32>,
    ) -> (result: Result<AndroidLogWriter, TagError>)
        ensures
            !old(tags).cloneable(self.tag()) ==> (result matches Err(e) && e
                == TagError::UnknownTag),
            final(tags).pool() == old(tags).pool(),
            final(pool)@.id == old(pool)@.id,
            match result {
                Ok(writer) => {
                    &&& old(tags).cloneable(self.tag())
                    &&& writer@ == (WriterView {
                        path: self.path(),
                        priority: Priority::of_level(level_name(level)),
                        buffer: self.buffer(),
                        message: Seq::empty(),
                        location: match (file, line) {
                            (Some(name), Some(at)) => Some(
                                Place { file: name.spec_bytes(), line: at },
                            ),
                            _ => None,
                        },
                    })
                    &&& writer.tag().index() == self.tag().index()
                    &&& writer.tag().slot() == self.tag().slot()
                    &&& final(tags)@ == with_clone(old(tags)@, self.tag().index())
                    &&& final(tags).owns(writer.tag())
                    &&& writer.checked_out_of(final(pool)@)
                    &&& writer.slots().disjoint(old(pool)@.live)
                    &&& final(pool)@.live == old(pool)@.live.union(writer.slots())
                    &&& final(pool)@.out == old(pool)@.out + writer@.held()
                },
                Err(e) => {
                    &&& final(tags)@ == old(tags)@
                    &&& final(pool)@ == old(pool)@
                    &&& e == TagError::UnknownTag <==> !old(tags).cloneable(self.tag())
                    &&& e == TagError::PoolExhausted <==> old(tags).cloneable(self.tag())
                },
            },
    {
        let priority = Priority::from(level);
        let location = match (file, line) {
            (Some(name), Some(at)) => Some((name.as_bytes(), at)),
            _ => None,
        };
        self.open(pool, tags, priority, location)
    }
}

/// A message that is not empty, is shorter than [`MAX_LOG_LEN`] and is a C
/// string once terminated goes out in exactly one record, which carries all
/// of it, unless the platform would not log it.
pub proof fn lemma_short_message_one_record(writer: WriterView, loggable: bool, tag: Seq<u8>)
    requires
        0 < writer.message.len() < MAX_LOG_LEN,
        sendable(writer.message),
        !writer.silent(loggable),
    ensures
        writer.flushed(loggable, Seq::empty()).messages == seq![terminated(writer.message)],
        writer.flushed(loggable, Seq::empty()).records(tag).len() == 1,
        writer.flushed(loggable, Seq::empty()).records(tag)[0] == writer.flushed(
            loggable,
            Seq::empty(),
        ).record(tag, 0),
{
    lemma_short_message_is_one_piece(writer.message);
    let parts = pieces(writer.message);
    assert(parts.drop_last() =~= Seq::<Seq<u8>>::empty());
    assert(!Seq::<usize>::empty().contains(0usize));
    assert(parts.last() == writer.message);
    assert(deliveries(parts.drop_last(), Seq::empty()) =~= Seq::<Seq<u8>>::empty());
    assert(deliveries(parts, Seq::empty()) =~= seq![terminated(writer.message)]);
}

/// A message of [`MAX_LOG_LEN`] bytes or more, of which every piece finds a
/// buffer and is a C string once terminated, goes out in as many records as
/// its length divided by [`MAX_LOG_LEN`], rounded up, unless the platform
/// would not log it. Record `i` carries piece `i`, terminated; no piece is
/// longer than [`MAX_LOG_LEN`]; and the pieces, one behind the other, are
/// the message.
pub proof fn lemma_long_message_records(writer: WriterView, loggable: bool, tag: Seq<u8>)
    requires
        writer.message.len() >= MAX_LOG_LEN,
        forall|i: int|
            0 <= i < piece_count(writer.message.len()) ==> sendable(
                #[trigger] piece(writer.message, i),
            ),
        !writer.silent(loggable),
    ensures
        writer.flushed(loggable, Seq::empty()).records(tag).len() == piece_count(
            writer.message.len(),
        ),
        (piece_count(writer.message.len()) - 1) * MAX_LOG_LEN < writer.message.len()
            <= piece_count(writer.message.len()) * MAX_LOG_LEN,
        forall|i: int|
            0 <= i < piece_count(writer.message.len()) ==> {
                &&& (#[trigger] writer.flushed(loggable, Seq::empty()).messages[i])
                    == terminated(piece(writer.message, i))
                &&& piece(writer.message, i).len() <= MAX_LOG_LEN
            },
        concat(pieces(writer.message)) == writer.message,
{
    let parts = pieces(writer.message);
    assert forall|i: int| 0 <= i < parts.len() implies sendable(#[trigger] parts[i]) by {
        assert(parts[i] == piece(writer.message, i));
    }
    lemma_deliveries_all(parts);
    lemma_piece_count_rounds_up(writer.message.len());
    lemma_pieces_concat(writer.message);
    assert forall|i: int| 0 <= i < piece_count(writer.message.len()) implies {
        &&& (#[trigger] writer.flushed(loggable, Seq::empty()).messages[i]) == terminated(
            piece(writer.message, i),
        )
        &&& piece(writer.message, i).len() <= MAX_LOG_LEN
    } by {
        lemma_piece_len(writer.message, i);
        assert(parts[i] == piece(writer.message, i));
    }
}

/// Whatever the pool had for the pieces of a message: a flush leaves no
/// more records than the message has pieces, and each record carries one of
/// the pieces, terminated, so at most [`MAX_LOG_LEN`] bytes and the
/// terminator.
pub proof fn lemma_records_are_pieces(writer: WriterView, loggable: bool, starved: Seq<usize>)
    ensures
        writer.flushed(loggable, starved).messages.len() <= piece_count(writer.message.len()),
        forall|j: int|
            0 <= j < writer.flushed(loggable, starved).messages.len() ==> {
                &&& is_delivery_of(
                    pieces(writer.message),
                    starved,
                    #[trigger] writer.flushed(loggable, starved).messages[j],
                )
                &&& 1 <= writer.flushed(loggable, starved).messages[j].len() <= MAX_LOG_LEN + 1
            },
{
    let parts = pieces(writer.message);
    lemma_deliveries_are_pieces(parts, starved);
    assert forall|j: int| 0 <= j < writer.flushed(loggable, starved).messages.len() implies {
        &&& is_delivery_of(parts, starved, #[trigger] writer.flushed(loggable, starved).messages[j])
        &&& 1 <= writer.flushed(loggable, starved).messages[j].len() <= MAX_LOG_LEN + 1
    } by {
        let message = writer.flushed(loggable, starved).messages[j];
        assert(message == deliveries(parts, starved)[j]);
        assert(is_delivery_of(parts, starved, message));
        let i = choose|i: int|
            0 <= i < parts.len() && sendable(#[trigger] parts[i]) && !starved.contains(i as usize)
                && terminated(parts[i]) == message;
        lemma_piece_len(writer.message, i);
        assert(parts[i] == piece(writer.message, i));
    }
}

/// Where the platform says on the extended path that it would not log the
/// message, the flush leaves an empty batch: no record, and no pooled
/// buffer held.
pub proof fn lemma_filtered_sends_nothing(writer: WriterView, starved: Seq<usize>, tag: Seq<u8>)
    requires
        writer.path is Extended,
    ensures
        writer.flushed(false, starved).records(tag).len() == 0,
        writer.flushed(false, starved).file is None,
        writer.flushed(false, starved).held() == 0,
{
}

/// An empty message sends nothing, whatever the path and the platform's
/// answer.
pub proof fn lemma_empty_message_sends_nothing(
    writer: WriterView,
    loggable: bool,
    starved: Seq<usize>,
    tag: Seq<u8>,
)
    requires
        writer.message.len() == 0,
    ensures
        writer.flushed(loggable, starved).records(tag).len() == 0,
        writer.flushed(loggable, starved).held() == 0,
{
}

} // verus!

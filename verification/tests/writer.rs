use tracing_android::batch::{keep_piece, Batch, BufferList, MessageIter, SinkCall, SinkPath};
use tracing_android::logging::{Buffer, Priority};
use tracing_android::pool::{BufferPool, PoolError};
use tracing_android::tag::{TagCache, TagError};
use tracing_android::writer::AndroidLogMakeWriter;
use tracing_core::Level;

#[derive(Debug, PartialEq)]
enum Sent {
    Legacy(Priority, Vec<u8>, Vec<u8>),
    Structured(Buffer, Priority, Vec<u8>, Option<Vec<u8>>, u32, Vec<u8>),
}

fn sent(batch: &Batch, tags: &TagCache) -> Vec<Sent> {
    let mut out = Vec::new();
    let mut walk = batch.messages();
    while let Some(i) = walk.next() {
        out.push(match batch.record(tags, i).unwrap() {
            SinkCall::Legacy { priority, tag, message } => {
                Sent::Legacy(priority, tag.to_vec(), message.to_vec())
            }
            SinkCall::Structured { buffer, priority, tag, file, line, message } => Sent::Structured(
                buffer,
                priority,
                tag.to_vec(),
                file.map(|f| f.to_vec()),
                line,
                message.to_vec(),
            ),
        });
    }
    assert!(batch.record(tags, batch.len()).is_none());
    out
}

#[test]
fn short_line_is_one_structured_record() {
    let mut pool = BufferPool::new();
    let mut tags = TagCache::new();
    let maker = AndroidLogMakeWriter::with_buffer(&mut tags, String::from("svc"), Buffer::Main)
        .unwrap()
        .with_sink_path(SinkPath::Extended);
    let mut writer = maker.make_writer(&mut pool, &mut tags).unwrap();
    assert!(writer.needs_probe());
    assert_eq!(writer.write(b"short line"), 10);
    let batch = writer.flush(&mut pool, true);
    assert_eq!(
        sent(&batch, &tags),
        vec![Sent::Structured(
            Buffer::Main,
            Priority::Info,
            b"svc\0".to_vec(),
            None,
            0,
            b"short line\0".to_vec()
        )]
    );
    assert!(!batch.finish(&mut pool, &mut tags));
    assert_eq!(pool.checked_out(), 0);
    assert!(maker.close(&mut tags));
    assert_eq!(tags.live_tags(), 0);
}

#[test]
fn long_message_is_split_in_three() {
    let mut pool = BufferPool::new();
    let mut tags = TagCache::new();
    let maker = AndroidLogMakeWriter::new(&mut tags, String::from("svc")).unwrap();
    let mut writer = maker.make_writer(&mut pool, &mut tags).unwrap();
    assert!(!writer.needs_probe());
    let message = vec![b'x'; 9001];
    assert_eq!(writer.write(&message[..5000]), 5000);
    assert_eq!(writer.write(&message[5000..]), 4001);
    assert_eq!(writer.message(), &message[..]);
    let batch = writer.flush(&mut pool, true);
    assert!(batch.starved_pieces().is_empty());
    assert!(matches!(batch.messages(), MessageIter::Multi(0, 3)));
    let records = sent(&batch, &tags);
    assert_eq!(records.len(), 3);
    let mut joined: Vec<u8> = Vec::new();
    let mut lens: Vec<usize> = Vec::new();
    for record in &records {
        match record {
            Sent::Legacy(priority, tag, piece) => {
                assert_eq!(*priority, Priority::Info);
                assert_eq!(tag, b"svc\0");
                assert_eq!(piece.last(), Some(&0u8));
                lens.push(piece.len() - 1);
                joined.extend_from_slice(&piece[..piece.len() - 1]);
            }
            other => panic!("not a legacy record: {:?}", other),
        }
    }
    assert_eq!(lens, vec![4000, 4000, 1001]);
    assert_eq!(joined, message);
    assert_eq!(pool.checked_out(), 3);
    batch.finish(&mut pool, &mut tags);
    assert_eq!(pool.checked_out(), 0);
    maker.close(&mut tags);
}

#[test]
fn filtered_message_sends_nothing() {
    let mut pool = BufferPool::new();
    let mut tags = TagCache::new();
    let maker = AndroidLogMakeWriter::new(&mut tags, String::from("svc"))
        .unwrap()
        .with_sink_path(SinkPath::Extended);
    let mut writer = maker
        .make_writer_for(&mut pool, &mut tags, Level::DEBUG, Some("src/main.rs"), Some(7))
        .unwrap();
    assert_eq!(pool.checked_out(), 2);
    writer.write(&vec![b'y'; 10_000]);
    let batch = writer.flush(&mut pool, false);
    assert_eq!(batch.len(), 0);
    assert_eq!(sent(&batch, &tags), vec![]);
    assert_eq!(pool.checked_out(), 0);
    batch.finish(&mut pool, &mut tags);
    assert_eq!(pool.checked_out(), 0);
    assert!(maker.close(&mut tags));
    assert_eq!(tags.live_tags(), 0);
}

#[test]
fn legacy_path_takes_no_answer_from_the_platform() {
    let mut pool = BufferPool::new();
    let mut tags = TagCache::new();
    let maker = AndroidLogMakeWriter::with_buffer(&mut tags, String::from("svc"), Buffer::Crash)
        .unwrap();
    let mut writer = maker
        .make_writer_for(&mut pool, &mut tags, Level::ERROR, Some("lib.rs"), Some(3))
        .unwrap();
    writer.write(b"boom");
    let batch = writer.flush(&mut pool, false);
    assert_eq!(
        sent(&batch, &tags),
        vec![Sent::Legacy(Priority::Error, b"svc\0".to_vec(), b"boom\0".to_vec())]
    );
    assert_eq!(batch.priority(), Priority::Error);
    batch.finish(&mut pool, &mut tags);
    assert_eq!(pool.checked_out(), 0);
    maker.close(&mut tags);
}

#[test]
fn location_goes_into_structured_records() {
    let mut pool = BufferPool::new();
    let mut tags = TagCache::new();
    let maker = AndroidLogMakeWriter::with_buffer(&mut tags, String::from("svc"), Buffer::System)
        .unwrap()
        .with_sink_path(SinkPath::Extended);
    let mut writer = maker
        .make_writer_for(&mut pool, &mut tags, Level::WARN, Some("src/net.rs"), Some(42))
        .unwrap();
    assert_eq!(writer.priority(), Priority::Warn);
    writer.write(b"slow");
    let batch = writer.flush(&mut pool, true);
    assert_eq!(
        sent(&batch, &tags),
        vec![Sent::Structured(
            Buffer::System,
            Priority::Warn,
            b"svc\0".to_vec(),
            Some(b"src/net.rs\0".to_vec()),
            42,
            b"slow\0".to_vec()
        )]
    );
    assert_eq!(pool.checked_out(), 2);
    batch.finish(&mut pool, &mut tags);
    assert_eq!(pool.checked_out(), 0);
    maker.close(&mut tags);
}

#[test]
fn location_needs_both_file_and_line() {
    let mut pool = BufferPool::new();
    let mut tags = TagCache::new();
    let maker = AndroidLogMakeWriter::new(&mut tags, String::from("svc"))
        .unwrap()
        .with_sink_path(SinkPath::Extended);
    for (file, line) in [(Some("a.rs"), None), (None, Some(1u32)), (None, None)] {
        let mut writer =
            maker.make_writer_for(&mut pool, &mut tags, Level::TRACE, file, line).unwrap();
        assert_eq!(pool.checked_out(), 1);
        writer.write(b"m");
        let batch = writer.flush(&mut pool, true);
        assert_eq!(
            sent(&batch, &tags),
            vec![Sent::Structured(
                Buffer::Default,
                Priority::Verbose,
                b"svc\0".to_vec(),
                None,
                0,
                b"m\0".to_vec()
            )]
        );
        batch.finish(&mut pool, &mut tags);
    }
    assert_eq!(pool.checked_out(), 0);
    maker.close(&mut tags);
}

#[test]
fn file_name_with_a_terminator_is_left_out() {
    let mut pool = BufferPool::new();
    let mut tags = TagCache::new();
    let maker = AndroidLogMakeWriter::new(&mut tags, String::from("svc"))
        .unwrap()
        .with_sink_path(SinkPath::Extended);
    let mut writer = maker
        .make_writer_for(&mut pool, &mut tags, Level::INFO, Some("a\0b.rs"), Some(9))
        .unwrap();
    writer.write(b"m");
    let batch = writer.flush(&mut pool, true);
    assert_eq!(
        sent(&batch, &tags),
        vec![Sent::Structured(
            Buffer::Default,
            Priority::Info,
            b"svc\0".to_vec(),
            None,
            0,
            b"m\0".to_vec()
        )]
    );
    assert_eq!(pool.checked_out(), 1);
    batch.finish(&mut pool, &mut tags);
    assert_eq!(pool.checked_out(), 0);
    maker.close(&mut tags);
}

#[test]
fn empty_message_sends_nothing() {
    let mut pool = BufferPool::new();
    let mut tags = TagCache::new();
    let maker = AndroidLogMakeWriter::new(&mut tags, String::from("svc")).unwrap();
    let writer = maker.make_writer(&mut pool, &mut tags).unwrap();
    let batch = writer.flush(&mut pool, true);
    assert_eq!(batch.len(), 0);
    assert!(matches!(batch.messages(), MessageIter::Single(false)));
    assert_eq!(pool.checked_out(), 0);
    batch.finish(&mut pool, &mut tags);
    maker.close(&mut tags);
}

#[test]
fn message_with_an_inner_terminator_is_skipped() {
    let mut pool = BufferPool::new();
    let mut tags = TagCache::new();
    let maker = AndroidLogMakeWriter::new(&mut tags, String::from("svc")).unwrap();
    let mut writer = maker.make_writer(&mut pool, &mut tags).unwrap();
    writer.write(b"a\0b");
    let batch = writer.flush(&mut pool, true);
    assert_eq!(batch.len(), 0);
    assert_eq!(pool.checked_out(), 0);
    batch.finish(&mut pool, &mut tags);
    maker.close(&mut tags);
}

#[test]
fn message_that_ends_in_a_terminator_gets_no_second_one() {
    let mut pool = BufferPool::new();
    let mut tags = TagCache::new();
    let maker = AndroidLogMakeWriter::new(&mut tags, String::from("svc")).unwrap();
    let mut writer = maker.make_writer(&mut pool, &mut tags).unwrap();
    writer.write(b"done\0");
    let batch = writer.flush(&mut pool, true);
    assert_eq!(
        sent(&batch, &tags),
        vec![Sent::Legacy(Priority::Info, b"svc\0".to_vec(), b"done\0".to_vec())]
    );
    batch.finish(&mut pool, &mut tags);
    maker.close(&mut tags);
}

#[test]
fn bad_piece_is_skipped_and_the_rest_goes_out() {
    let mut pool = BufferPool::new();
    let mut tags = TagCache::new();
    let maker = AndroidLogMakeWriter::new(&mut tags, String::from("svc")).unwrap();
    let mut writer = maker.make_writer(&mut pool, &mut tags).unwrap();
    let mut message = vec![b'a'; 12_000];
    message[4100] = 0;
    writer.write(&message);
    let batch = writer.flush(&mut pool, true);
    let records = sent(&batch, &tags);
    assert_eq!(records.len(), 2);
    let mut first = vec![b'a'; 4000];
    first.push(0);
    assert_eq!(records[0], Sent::Legacy(Priority::Info, b"svc\0".to_vec(), first.clone()));
    assert_eq!(records[1], Sent::Legacy(Priority::Info, b"svc\0".to_vec(), first));
    assert!(batch.starved_pieces().is_empty());
    assert_eq!(pool.checked_out(), 2);
    batch.finish(&mut pool, &mut tags);
    assert_eq!(pool.checked_out(), 0);
    maker.close(&mut tags);
}

#[test]
fn message_of_exactly_the_threshold_is_split_path() {
    let mut pool = BufferPool::new();
    let mut tags = TagCache::new();
    let maker = AndroidLogMakeWriter::new(&mut tags, String::from("svc")).unwrap();
    let mut writer = maker.make_writer(&mut pool, &mut tags).unwrap();
    writer.write(&vec![b'z'; 4000]);
    let batch = writer.flush(&mut pool, true);
    assert!(matches!(batch.messages(), MessageIter::Multi(0, 1)));
    let records = sent(&batch, &tags);
    assert_eq!(records.len(), 1);
    batch.finish(&mut pool, &mut tags);
    let mut writer = maker.make_writer(&mut pool, &mut tags).unwrap();
    writer.write(&vec![b'z'; 3999]);
    let batch = writer.flush(&mut pool, true);
    assert!(matches!(batch.messages(), MessageIter::Single(true)));
    assert_eq!(batch.len(), 1);
    batch.finish(&mut pool, &mut tags);
    assert_eq!(pool.checked_out(), 0);
    maker.close(&mut tags);
}

#[test]
fn invalid_tag_is_refused_at_configuration() {
    let mut tags = TagCache::new();
    assert!(matches!(
        AndroidLogMakeWriter::new(&mut tags, String::from("s\0vc")),
        Err(TagError::InvalidTag)
    ));
    assert!(matches!(
        AndroidLogMakeWriter::with_buffer(&mut tags, String::from("svc\0"), Buffer::Main),
        Err(TagError::InvalidTag)
    ));
    assert_eq!(tags.live_tags(), 0);
}

#[test]
fn writers_share_the_tag_by_count() {
    let mut pool = BufferPool::new();
    let mut tags = TagCache::new();
    let maker = AndroidLogMakeWriter::new(&mut tags, String::from("svc")).unwrap();
    let one = maker.make_writer(&mut pool, &mut tags).unwrap();
    let two = maker.make_writer(&mut pool, &mut tags).unwrap();
    assert_eq!(tags.ref_count(one.tag_handle()), 3);
    assert_eq!(one.tag_handle().key(), two.tag_handle().key());
    let batch = one.flush(&mut pool, true);
    assert!(!batch.finish(&mut pool, &mut tags));
    assert_eq!(tags.ref_count(two.tag_handle()), 2);
    assert!(!maker.close(&mut tags));
    assert_eq!(tags.bytes(two.tag_handle()), Some(&b"svc\0"[..]));
    let batch = two.flush(&mut pool, true);
    assert!(batch.finish(&mut pool, &mut tags));
    assert_eq!(tags.live_tags(), 0);
    assert_eq!(pool.checked_out(), 0);
}

#[test]
fn maker_of_another_cache_makes_no_writer() {
    let mut pool = BufferPool::new();
    let mut tags = TagCache::new();
    let mut other = TagCache::new();
    let maker = AndroidLogMakeWriter::new(&mut tags, String::from("svc")).unwrap();
    assert!(matches!(maker.make_writer(&mut pool, &mut other), Err(TagError::UnknownTag)));
    assert_eq!(pool.checked_out(), 0);
    maker.close(&mut tags);
}

#[test]
fn walk_reports_what_is_left() {
    let mut walk = MessageIter::Multi(0, 3);
    assert_eq!(walk.size_hint(), (3, Some(3)));
    assert_eq!(walk.next(), Some(0));
    assert_eq!(walk.size_hint(), (2, Some(2)));
    assert_eq!(walk.next(), Some(1));
    assert_eq!(walk.next(), Some(2));
    assert_eq!(walk.size_hint(), (0, Some(0)));
    assert_eq!(walk.next(), None);
    assert_eq!(walk.next(), None);
    let mut walk = MessageIter::Single(true);
    assert_eq!(walk.size_hint(), (1, Some(1)));
    assert_eq!(walk.next(), Some(0));
    assert_eq!(walk.size_hint(), (0, Some(0)));
    assert_eq!(walk.next(), None);
    let mut walk = MessageIter::Multi(5, 2);
    assert_eq!(walk.size_hint(), (0, Some(0)));
    assert_eq!(walk.next(), None);
}

#[test]
fn sink_path_follows_the_api_level() {
    assert_eq!(SinkPath::for_api_level(29), SinkPath::Legacy);
    assert_eq!(SinkPath::for_api_level(30), SinkPath::Extended);
    assert_eq!(SinkPath::for_api_level(34), SinkPath::Extended);
    assert_eq!(SinkPath::for_api_level(0), SinkPath::Legacy);
    assert_eq!(SinkPath::for_api_level(-1), SinkPath::Legacy);
    assert_eq!(SinkPath::for_api_level(i32::MAX), SinkPath::Extended);
}

#[test]
fn probe_asks_only_on_the_extended_path() {
    let mut pool = BufferPool::new();
    let mut tags = TagCache::new();
    let other = TagCache::new();
    let legacy = AndroidLogMakeWriter::new(&mut tags, String::from("old")).unwrap();
    let extended = AndroidLogMakeWriter::new(&mut tags, String::from("new"))
        .unwrap()
        .with_sink_path(SinkPath::Extended);
    let writer = legacy.make_writer(&mut pool, &mut tags).unwrap();
    assert_eq!(writer.probe(&tags), None);
    assert!(writer.loggable(None));
    assert!(writer.loggable(Some(true)));
    assert!(!writer.loggable(Some(false)));
    writer.flush(&mut pool, true).finish(&mut pool, &mut tags);
    let writer = extended
        .make_writer_for(&mut pool, &mut tags, Level::WARN, None, None)
        .unwrap();
    assert_eq!(writer.probe(&tags), Some((Priority::Warn, &b"new\0"[..])));
    assert_eq!(writer.probe(&other), None);
    assert!(!writer.loggable(None));
    assert!(writer.loggable(Some(true)));
    assert!(!writer.loggable(Some(false)));
    writer.flush(&mut pool, false).finish(&mut pool, &mut tags);
    assert_eq!(pool.checked_out(), 0);
    legacy.close(&mut tags);
    extended.close(&mut tags);
    assert_eq!(tags.checked_out(), 0);
}

#[test]
fn keep_piece_takes_each_answer_of_the_pool() {
    let mut pool = BufferPool::new();
    let mut messages = BufferList::new();
    let mut starved: Vec<usize> = Vec::new();
    let good = pool.acquire_with(b"good");
    keep_piece(&mut pool, &mut messages, &mut starved, 0, good);
    assert_eq!(messages.len(), 1);
    assert_eq!(messages.get(0).unwrap().as_bytes(), b"good\0");
    assert!(starved.is_empty());
    assert_eq!(pool.checked_out(), 1);
    let bad = pool.acquire_with(b"b\0ad");
    assert_eq!(pool.checked_out(), 2);
    keep_piece(&mut pool, &mut messages, &mut starved, 1, bad);
    assert_eq!(messages.len(), 1);
    assert!(starved.is_empty());
    assert_eq!(pool.checked_out(), 1);
    keep_piece(&mut pool, &mut messages, &mut starved, 2, Err(PoolError::PoolExhausted));
    assert_eq!(messages.len(), 1);
    assert_eq!(starved, vec![2]);
    assert_eq!(pool.checked_out(), 1);
    assert!(messages.get(1).is_none());
    let last = messages.pop().unwrap();
    assert!(pool.release(last));
    assert!(messages.pop().is_none());
    assert_eq!(pool.checked_out(), 0);
}

#[test]
fn open_with_makes_a_writer_exactly_with_every_buffer() {
    let mut pool = BufferPool::new();
    let mut tags = TagCache::new();
    let maker = AndroidLogMakeWriter::new(&mut tags, String::from("svc")).unwrap();
    let exhausted = || Err(PoolError::PoolExhausted);

    let message = pool.acquire();
    let file = Some(pool.acquire_with(b"a.rs"));
    let writer =
        maker.open_with(&mut pool, &mut tags, Priority::Debug, 5, message, file).unwrap();
    assert_eq!(writer.priority(), Priority::Debug);
    assert_eq!(writer.message(), b"");
    assert_eq!(tags.ref_count(writer.tag_handle()), 2);
    assert_eq!(pool.checked_out(), 2);
    writer.flush(&mut pool, true).finish(&mut pool, &mut tags);
    assert_eq!(pool.checked_out(), 0);

    let message = pool.acquire();
    assert!(matches!(
        maker.open_with(&mut pool, &mut tags, Priority::Info, 0, message, Some(exhausted())),
        Err(TagError::PoolExhausted)
    ));
    assert_eq!(pool.checked_out(), 0);

    let file = Some(pool.acquire_with(b"a.rs"));
    assert!(matches!(
        maker.open_with(&mut pool, &mut tags, Priority::Info, 0, exhausted(), file),
        Err(TagError::PoolExhausted)
    ));
    assert_eq!(pool.checked_out(), 0);
    assert!(matches!(
        maker.open_with(&mut pool, &mut tags, Priority::Info, 0, exhausted(), None),
        Err(TagError::PoolExhausted)
    ));
    assert_eq!(tags.live_tags(), 1);

    let mut other = TagCache::new();
    let message = pool.acquire();
    let file = Some(pool.acquire_with(b"a.rs"));
    assert!(matches!(
        maker.open_with(&mut pool, &mut other, Priority::Info, 0, message, file),
        Err(TagError::UnknownTag)
    ));
    assert_eq!(pool.checked_out(), 0);
    assert!(matches!(
        maker.open_with(&mut pool, &mut other, Priority::Info, 0, exhausted(), None),
        Err(TagError::UnknownTag)
    ));
    maker.close(&mut tags);
    assert_eq!(tags.checked_out(), 0);
}

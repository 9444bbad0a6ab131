use tracing_android::pool::{BufferPool, PoolError};

#[test]
fn acquired_buffer_is_empty() {
    let mut pool = BufferPool::new();
    assert_eq!(pool.checked_out(), 0);
    let buffer = pool.acquire().unwrap();
    assert_eq!(buffer.len(), 0);
    assert_eq!(buffer.as_bytes(), b"");
    assert_eq!(pool.checked_out(), 1);
    pool.release(buffer);
    assert_eq!(pool.checked_out(), 0);
}

#[test]
fn write_appends_in_order() {
    let mut pool = BufferPool::new();
    let mut buffer = pool.acquire().unwrap();
    buffer.write(b"hello");
    buffer.write(b", ");
    buffer.write(b"world");
    buffer.push(b'!');
    assert_eq!(buffer.as_bytes(), b"hello, world!");
    assert_eq!(buffer.len(), 13);
    pool.release(buffer);
}

#[test]
fn acquire_with_copies_the_data() {
    let mut pool = BufferPool::new();
    let data = [1u8, 2, 3, 0, 5];
    let buffer = pool.acquire_with(&data).unwrap();
    assert_eq!(buffer.as_bytes(), &data);
    pool.release(buffer);
}

#[test]
fn released_slot_comes_back_empty() {
    let mut pool = BufferPool::new();
    let mut first = pool.acquire().unwrap();
    first.write(b"left over from the first holder");
    let slot = first.key();
    pool.release(first);
    let mut seen_again = false;
    for _ in 0..64 {
        let next = pool.acquire().unwrap();
        assert_eq!(next.as_bytes(), b"");
        if next.key() & 0xffff == slot & 0xffff {
            seen_again = true;
        }
        pool.release(next);
    }
    assert!(seen_again);
    assert_eq!(pool.checked_out(), 0);
}

#[test]
fn buffers_checked_out_together_are_apart() {
    let mut pool = BufferPool::new();
    let mut a = pool.acquire().unwrap();
    let mut b = pool.acquire().unwrap();
    assert_ne!(a.key(), b.key());
    a.write(b"aaa");
    b.write(b"bb");
    assert_eq!(a.as_bytes(), b"aaa");
    assert_eq!(b.as_bytes(), b"bb");
    assert_eq!(pool.checked_out(), 2);
    pool.release(a);
    assert_eq!(b.as_bytes(), b"bb");
    pool.release(b);
    assert_eq!(pool.checked_out(), 0);
}

#[test]
fn buffer_of_another_pool_is_not_taken() {
    let mut home = BufferPool::new();
    let mut other = BufferPool::new();
    let first = other.acquire().unwrap();
    let buffer = home.acquire().unwrap();
    assert!(home.owns(&buffer));
    assert!(!other.owns(&buffer));
    assert!(other.owns(&first));
    assert_eq!(buffer.key(), first.key());
    assert!(!other.release(buffer));
    assert_eq!(other.checked_out(), 1);
    assert_eq!(home.checked_out(), 1);
    assert_eq!(first.as_bytes(), b"");
    assert!(other.release(first));
    assert_eq!(other.checked_out(), 0);
}

#[test]
fn release_says_that_the_buffer_went_back() {
    let mut pool = BufferPool::new();
    let a = pool.acquire().unwrap();
    let b = pool.acquire_with(b"b").unwrap();
    assert!(pool.release(a));
    assert_eq!(pool.checked_out(), 1);
    assert!(pool.release(b));
    assert_eq!(pool.checked_out(), 0);
}

#[test]
fn check_out_without_a_slot_fails() {
    let mut pool = BufferPool::new();
    assert!(matches!(pool.check_out(None), Err(PoolError::PoolExhausted)));
    assert_eq!(pool.checked_out(), 0);
}

#[test]
fn as_terminated_adds_one_terminator() {
    let mut pool = BufferPool::new();
    let mut buffer = pool.acquire_with(b"abc").unwrap();
    assert_eq!(buffer.as_terminated(), Some(&b"abc\0"[..]));
    assert_eq!(buffer.as_terminated(), Some(&b"abc\0"[..]));
    assert_eq!(buffer.as_bytes(), b"abc\0");
    pool.release(buffer);
}

#[test]
fn as_terminated_keeps_a_terminator_that_is_there() {
    let mut pool = BufferPool::new();
    let mut buffer = pool.acquire_with(b"abc\0").unwrap();
    assert_eq!(buffer.as_terminated(), Some(&b"abc\0"[..]));
    assert_eq!(buffer.len(), 4);
    pool.release(buffer);
}

#[test]
fn as_terminated_of_nothing_is_the_empty_string() {
    let mut pool = BufferPool::new();
    let mut buffer = pool.acquire().unwrap();
    assert_eq!(buffer.as_terminated(), Some(&b"\0"[..]));
    pool.release(buffer);
}

#[test]
fn as_terminated_refuses_an_inner_terminator() {
    let mut pool = BufferPool::new();
    let mut buffer = pool.acquire_with(b"a\0b").unwrap();
    assert_eq!(buffer.as_terminated(), None);
    assert_eq!(buffer.as_bytes(), b"a\0b\0");
    pool.release(buffer);
    let mut buffer = pool.acquire_with(b"ab\0\0").unwrap();
    assert_eq!(buffer.as_terminated(), None);
    assert_eq!(buffer.as_bytes(), b"ab\0\0");
    pool.release(buffer);
}

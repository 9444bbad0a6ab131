use tracing_android::tag::{TagCache, TagError};

#[test]
fn intern_terminates_the_tag() {
    let mut cache = TagCache::new();
    let tag = cache.intern(b"svc").unwrap();
    assert_eq!(cache.bytes(&tag), Some(&b"svc\0"[..]));
    assert_eq!(cache.ref_count(&tag), 1);
    assert_eq!(cache.live_tags(), 1);
    assert_eq!(cache.checked_out(), 1);
    assert!(cache.release(tag));
    assert_eq!(cache.live_tags(), 0);
    assert_eq!(cache.checked_out(), 0);
}

#[test]
fn intern_refuses_a_terminator_anywhere() {
    let mut cache = TagCache::new();
    assert!(matches!(cache.intern(b"s\0vc"), Err(TagError::InvalidTag)));
    assert!(matches!(cache.intern(b"svc\0"), Err(TagError::InvalidTag)));
    assert!(matches!(cache.intern(b"\0"), Err(TagError::InvalidTag)));
    assert_eq!(cache.live_tags(), 0);
}

#[test]
fn empty_tag_is_a_tag() {
    let mut cache = TagCache::new();
    let tag = cache.intern(b"").unwrap();
    assert_eq!(cache.bytes(&tag), Some(&b"\0"[..]));
    assert!(cache.release(tag));
}

#[test]
fn tag_lives_until_the_last_handle_is_released() {
    for n in [0usize, 1, 2, 7] {
        let mut cache = TagCache::new();
        let first = cache.intern(b"svc").unwrap();
        let probe = cache.intern(b"probe").unwrap();
        let mut handles = vec![first];
        for i in 0..n {
            let copy = cache.clone_tag(&handles[0]).unwrap();
            assert_eq!(copy.key(), handles[0].key());
            handles.push(copy);
            assert_eq!(cache.ref_count(&handles[0]), i + 2);
        }
        assert_eq!(handles.len(), n + 1);
        while handles.len() > 1 {
            let handle = handles.pop().unwrap();
            assert!(!cache.release(handle));
            assert_eq!(cache.bytes(&handles[0]), Some(&b"svc\0"[..]));
            assert_eq!(cache.ref_count(&handles[0]), handles.len());
            assert_eq!(cache.live_tags(), 2);
            assert_eq!(cache.checked_out(), 2);
        }
        let last = handles.pop().unwrap();
        assert!(cache.release(last));
        assert_eq!(cache.live_tags(), 1);
        assert_eq!(cache.checked_out(), 1);
        assert_eq!(cache.bytes(&probe), Some(&b"probe\0"[..]));
        assert!(cache.release(probe));
        assert_eq!(cache.live_tags(), 0);
    }
}

#[test]
fn cleared_slot_is_used_again() {
    let mut cache = TagCache::new();
    let a = cache.intern(b"a").unwrap();
    let b = cache.intern(b"b").unwrap();
    assert!(cache.release(a));
    let c = cache.intern(b"c").unwrap();
    assert_eq!(cache.bytes(&c), Some(&b"c\0"[..]));
    assert_eq!(cache.bytes(&b), Some(&b"b\0"[..]));
    let d = cache.intern(b"d").unwrap();
    assert_eq!(cache.bytes(&d), Some(&b"d\0"[..]));
    assert_eq!(cache.live_tags(), 3);
    assert!(cache.release(b));
    assert!(cache.release(c));
    assert!(cache.release(d));
}

#[test]
fn handle_of_another_cache_is_not_held() {
    let mut one = TagCache::new();
    let mut two = TagCache::new();
    let tag = one.intern(b"svc").unwrap();
    assert_eq!(two.bytes(&tag), None);
    assert_eq!(two.ref_count(&tag), 0);
    assert!(!two.can_clone(&tag));
    assert!(two.clone_tag(&tag).is_none());
    assert!(one.can_clone(&tag));
    assert!(!two.release(tag));
    assert_eq!(one.live_tags(), 1);
}

#[test]
fn install_without_a_buffer_is_exhaustion() {
    let mut cache = TagCache::new();
    let none = Err(tracing_android::pool::PoolError::PoolExhausted);
    assert!(matches!(cache.install(none), Err(TagError::PoolExhausted)));
}

#[test]
fn installed_buffer_goes_to_the_cache_pool_only_if_it_came_from_it() {
    let mut cache = TagCache::new();
    let mut pool = tracing_android::pool::BufferPool::new();
    let buffer = pool.acquire_with(b"mine\0").unwrap();
    let tag = cache.install(Ok(buffer)).unwrap();
    assert_eq!(cache.bytes(&tag), Some(&b"mine\0"[..]));
    assert_eq!(cache.checked_out(), 0);
    assert!(cache.release(tag));
    assert_eq!(cache.checked_out(), 0);
    assert_eq!(cache.live_tags(), 0);
    assert_eq!(pool.checked_out(), 1);
}

use pytui_native::error::TuiError;
use pytui_native::grapheme::GraphemePool;
use pytui_native::link::LinkPool;

#[test]
fn alloc_and_get() {
    let mut pool = LinkPool::new();
    let id = pool.allocate("https://example.com").unwrap();
    assert!(id != 0);
    let url = pool.get(id).unwrap();
    assert_eq!(url, "https://example.com");
}

#[test]
fn incref_decref_refcount() {
    let mut pool = LinkPool::new();
    let id = pool.allocate("https://a.example").unwrap();
    assert_eq!(pool.get_refcount(id).unwrap(), 0);
    pool.incref(id).unwrap();
    assert_eq!(pool.get_refcount(id).unwrap(), 1);
    pool.incref(id).unwrap();
    assert_eq!(pool.get_refcount(id).unwrap(), 2);
    pool.decref(id).unwrap();
    assert_eq!(pool.get_refcount(id).unwrap(), 1);
    pool.decref(id).unwrap();
    assert_eq!(pool.get(id).unwrap(), "https://a.example");
}

#[test]
fn reuse_after_decref_to_zero() {
    let mut pool = LinkPool::new();
    let id1 = pool.allocate("url1").unwrap();
    pool.incref(id1).unwrap();
    pool.decref(id1).unwrap();
    let id2 = pool.allocate("url2").unwrap();
    assert_eq!(pool.get(id2).unwrap(), "url2");
    assert!(pool.get(id1).is_err());
}

#[test]
fn url_too_long() {
    let mut pool = LinkPool::new();
    let long = "x".repeat(600);
    let res = pool.allocate(&long);
    assert!(res.is_err());
}

#[test]
fn tests_alloc_and_get() {
    let mut pool = GraphemePool::new();
    let id = pool.allocate("a".as_bytes()).unwrap();
    let s = pool.get(id).unwrap();
    assert_eq!(s, "a");
}

#[test]
fn tests_incref_decref_refcount() {
    let mut pool = GraphemePool::new();
    let id = pool.allocate("x".as_bytes()).unwrap();
    assert_eq!(pool.get_refcount(id).unwrap(), 0);
    pool.incref(id).unwrap();
    assert_eq!(pool.get_refcount(id).unwrap(), 1);
    pool.incref(id).unwrap();
    assert_eq!(pool.get_refcount(id).unwrap(), 2);
    pool.decref(id).unwrap();
    assert_eq!(pool.get_refcount(id).unwrap(), 1);
    pool.decref(id).unwrap();
    assert_eq!(pool.get(id).unwrap(), "x");
}

#[test]
fn generation_safety_scenario() {
    let mut pool = LinkPool::new();
    let old = pool.allocate("url1").unwrap();
    pool.incref(old).unwrap();
    pool.decref(old).unwrap();
    assert_eq!(pool.get_refcount(old).unwrap(), 0);
    let new = pool.allocate("url2").unwrap();
    assert_eq!(new & 0xFFFF, old & 0xFFFF);
    assert_ne!(new, old);
    assert_eq!(pool.get(old), Err(TuiError::InvalidHandle));
    assert_eq!(pool.get(new).unwrap(), "url2");
}

#[test]
fn first_handle_is_top_of_first_page() {
    let mut pool = GraphemePool::new();
    let id = pool.allocate("é".as_bytes()).unwrap();
    assert_eq!(id, (1 << 16) | 63);
    let id2 = pool.allocate("👋".as_bytes()).unwrap();
    assert_eq!(id2, (1 << 16) | 62);
    assert_eq!(pool.get(id2).unwrap(), "👋");
}

#[test]
fn grapheme_round_trip_at_capacity() {
    let mut pool = GraphemePool::new();
    let bytes = vec![b'z'; 128];
    let id = pool.allocate(&bytes).unwrap();
    assert_eq!(pool.get(id).unwrap().as_bytes(), &bytes[..]);
    assert_eq!(pool.allocate(&vec![b'z'; 129]), Err(TuiError::Capacity));
}

#[test]
fn invalid_utf8_is_an_encoding_error() {
    let mut pool = GraphemePool::new();
    let id = pool.allocate(&[0xff, 0xfe]).unwrap();
    assert_eq!(pool.get(id), Err(TuiError::Encoding));
    assert_eq!(pool.get_refcount(id), Ok(0));
}

#[test]
fn invalid_handles_are_rejected() {
    let mut pool = LinkPool::new();
    assert_eq!(pool.get(5), Err(TuiError::InvalidHandle));
    assert_eq!(pool.incref(5), Err(TuiError::InvalidHandle));
    let id = pool.allocate("u").unwrap();
    assert_eq!(pool.decref(id), Err(TuiError::InvalidHandle));
    let wrong_generation = id ^ (1 << 16);
    assert_eq!(pool.get_refcount(wrong_generation), Err(TuiError::InvalidHandle));
    assert_eq!(pool.incref(wrong_generation), Err(TuiError::InvalidHandle));
}

#[test]
fn pool_grows_by_pages() {
    let mut pool = LinkPool::new();
    let mut ids = Vec::new();
    for i in 0..65 {
        ids.push(pool.allocate(&format!("u{}", i)).unwrap());
    }
    assert_eq!(ids[64] & 0xFFFF, 127);
    assert_eq!(pool.get(ids[10]).unwrap(), "u10");
}

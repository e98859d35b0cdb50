use pytui_native::error::TuiError;
use pytui_native::mem_registry::MemRegistry;

#[test]
fn init_and_deinit() {
    let reg = MemRegistry::new();
    assert_eq!(reg.get_used_slots(), 0);
    assert_eq!(reg.get_free_slots(), 255);
}

#[test]
fn register_owned_memory() {
    let mut reg = MemRegistry::new();
    let id = reg.register(b"Hello, World!", true).unwrap();
    assert_eq!(id, 0);
    assert_eq!(reg.get_used_slots(), 1);
    assert_eq!(reg.get_free_slots(), 254);
    assert_eq!(reg.get(id).unwrap(), b"Hello, World!");
}

#[test]
fn register_multiple_buffers() {
    let mut reg = MemRegistry::new();
    let id1 = reg.register(b"First", false).unwrap();
    let id2 = reg.register(b"Second", false).unwrap();
    let id3 = reg.register(b"Third", false).unwrap();
    assert_eq!(id1, 0);
    assert_eq!(id2, 1);
    assert_eq!(id3, 2);
    assert_eq!(reg.get_used_slots(), 3);
    assert_eq!(reg.get(id1).unwrap(), b"First");
    assert_eq!(reg.get(id2).unwrap(), b"Second");
    assert_eq!(reg.get(id3).unwrap(), b"Third");
}

#[test]
fn get_invalid_id_returns_none() {
    let mut reg = MemRegistry::new();
    let _ = reg.register(b"Test", false).unwrap();
    assert!(reg.get(1).is_none());
    assert!(reg.get(255).is_none());
}

#[test]
fn unregister_and_reuse() {
    let mut reg = MemRegistry::new();
    let id = reg.register(b"X", false).unwrap();
    reg.unregister(id).unwrap();
    assert_eq!(reg.get_used_slots(), 0);
    let id2 = reg.register(b"Y", false).unwrap();
    assert_eq!(id2, id);
    assert_eq!(reg.get(id2).unwrap(), b"Y");
}

#[test]
fn registry_errors_and_clear() {
    let mut reg = MemRegistry::new();
    assert_eq!(reg.replace(0, b"a", false), Err(TuiError::InvalidHandle));
    assert_eq!(reg.unregister(0), Err(TuiError::InvalidHandle));
    for _ in 0..255 {
        reg.register(b"x", false).unwrap();
    }
    assert_eq!(reg.register(b"y", false), Err(TuiError::Capacity));
    reg.replace(7, b"seven", false).unwrap();
    assert_eq!(reg.get(7).unwrap(), b"seven");
    reg.clear();
    assert_eq!(reg.get_used_slots(), 0);
    assert_eq!(reg.get_free_slots(), 255);
    assert_eq!(reg.register(b"z", false).unwrap(), 254);
    assert!(reg.get(7).is_none());
}

#[test]
fn used_and_free_add_up() {
    let mut reg = MemRegistry::new();
    let a = reg.register(b"a", false).unwrap();
    let _b = reg.register(b"b", false).unwrap();
    reg.unregister(a).unwrap();
    assert_eq!(reg.get_used_slots(), 1);
    assert_eq!(reg.get_free_slots(), 254);
    assert_eq!(reg.get_used_slots() + reg.get_free_slots(), 255);
}

use titan_engine::key::{Key, INDEX_SPAN, NULL_INDEX};

#[test]
fn null_key_is_null() {
    let key = Key::null();
    assert!(key.is_null());
    assert_eq!(key.index, NULL_INDEX);
    assert_eq!(key.index, u32::MAX);
    assert_eq!(key.generation, 1);
}

#[test]
fn ordinary_key_is_not_null() {
    assert!(!Key { index: 3, generation: 1 }.is_null());
    assert!(Key { index: u32::MAX, generation: 7 }.is_null());
}

#[test]
fn as_ffi_puts_the_generation_above_the_index() {
    let key = Key { index: 5, generation: 3 };
    assert_eq!(INDEX_SPAN, 1 << 32);
    assert_eq!(key.as_ffi(), (3u64 << 32) | 5);
    assert_eq!(Key::null().as_ffi(), (1u64 << 32) | 0xFFFF_FFFF);
}

#[test]
fn from_ffi_undoes_as_ffi() {
    let key = Key { index: 77, generation: 9 };
    assert_eq!(Key::from_ffi(key.as_ffi()), key);
    assert_eq!(Key::from_ffi(Key::null().as_ffi()), Key::null());
}

#[test]
fn from_ffi_makes_the_generation_odd() {
    assert_eq!(Key::from_ffi((4u64 << 32) | 2), Key { index: 2, generation: 5 });
    assert_eq!(Key::from_ffi(0), Key { index: 0, generation: 1 });
    assert_eq!(Key::from_ffi(u64::MAX), Key { index: u32::MAX, generation: u32::MAX });
}

#[test]
fn keys_compare_by_index_and_generation() {
    let a = Key { index: 1, generation: 1 };
    let b = Key { index: 1, generation: 3 };
    let c = Key { index: 2, generation: 1 };
    assert_eq!(a, Key { index: 1, generation: 1 });
    assert_ne!(a, b);
    assert_ne!(a, c);
    let copy = a;
    assert_eq!(copy, a);
}

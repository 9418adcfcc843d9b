use memory_registry::registry::{
    ERR_BUFFER_TOO_SMALL, ERR_INVALID_ARGUMENT, ERR_INVALID_ENCODING, ERR_NOT_FOUND,
    INTERFACE_VERSION, PING_MAGIC,
};
use memory_registry::{
    get_memory_by_index, get_memory_count, memory_registry_version, submit_memory,
    wasm_test_ping, MemoryRegistry,
};

#[test]
fn submit_then_read_abc123() {
    let mut reg = MemoryRegistry::new();
    assert_eq!(submit_memory(&mut reg, b"abc123"), 0);
    assert_eq!(get_memory_count(&reg), 1);
    let mut buf = [0u8; 16];
    assert_eq!(get_memory_by_index(&reg, 0, &mut buf), 6);
    assert_eq!(&buf[..6], b"abc123");
    assert!(buf[6..].iter().all(|&b| b == 0));
}

#[test]
fn submit_empty_is_invalid_argument() {
    let mut reg = MemoryRegistry::new();
    assert_eq!(submit_memory(&mut reg, b""), -1);
    assert_eq!(submit_memory(&mut reg, b""), ERR_INVALID_ARGUMENT);
    assert_eq!(get_memory_count(&reg), 0);
}

#[test]
fn order_is_preserved() {
    let mut reg = MemoryRegistry::new();
    assert_eq!(submit_memory(&mut reg, b"x"), 0);
    assert_eq!(submit_memory(&mut reg, b"y"), 1);
    let mut buf = [0u8; 8];
    assert_eq!(get_memory_by_index(&reg, 1, &mut buf), 1);
    assert_eq!(&buf[..1], b"y");
    assert_eq!(get_memory_by_index(&reg, 0, &mut buf), 1);
    assert_eq!(&buf[..1], b"x");
}

#[test]
fn invalid_utf8_is_rejected() {
    let mut reg = MemoryRegistry::new();
    assert_eq!(submit_memory(&mut reg, &[0xff, 0xfe]), ERR_INVALID_ENCODING);
    assert_eq!(submit_memory(&mut reg, &[0xff]), -2);
    // a lone continuation byte, an overlong slash, a UTF-16 surrogate
    assert_eq!(submit_memory(&mut reg, &[0x80]), ERR_INVALID_ENCODING);
    assert_eq!(submit_memory(&mut reg, &[0xc0, 0xaf]), ERR_INVALID_ENCODING);
    assert_eq!(submit_memory(&mut reg, &[0xed, 0xa0, 0x80]), ERR_INVALID_ENCODING);
    // a truncated multi-byte sequence after valid text
    assert_eq!(submit_memory(&mut reg, &[b'a', 0xe2, 0x82]), ERR_INVALID_ENCODING);
    assert_eq!(get_memory_count(&reg), 0);
}

#[test]
fn multibyte_text_round_trips() {
    let mut reg = MemoryRegistry::new();
    let cid = "bafy-é€😀".as_bytes();
    assert_eq!(cid.len(), 14);
    assert_eq!(submit_memory(&mut reg, cid), 0);
    let mut buf = [0u8; 14];
    assert_eq!(get_memory_by_index(&reg, 0, &mut buf), 14);
    assert_eq!(&buf[..], cid);
}

#[test]
fn count_tracks_successes_only() {
    let mut reg = MemoryRegistry::new();
    assert_eq!(get_memory_count(&reg), 0);
    for (i, cid) in [&b"a"[..], b"bb", b"ccc"].iter().enumerate() {
        assert_eq!(submit_memory(&mut reg, cid), i as i32);
        assert_eq!(get_memory_count(&reg), i as u32 + 1);
    }
    assert!(submit_memory(&mut reg, b"") < 0);
    assert!(submit_memory(&mut reg, &[0xc3]) < 0);
    assert_eq!(get_memory_count(&reg), 3);
    assert_eq!(submit_memory(&mut reg, b"d"), 3);
    assert_eq!(get_memory_count(&reg), 4);
}

#[test]
fn read_past_end_is_not_found() {
    let mut reg = MemoryRegistry::new();
    let mut buf = [7u8; 4];
    assert_eq!(get_memory_by_index(&reg, 0, &mut buf), ERR_NOT_FOUND);
    submit_memory(&mut reg, b"z");
    let mut big = [7u8; 1024];
    assert_eq!(get_memory_by_index(&reg, 1, &mut big), -2);
    assert_eq!(get_memory_by_index(&reg, u32::MAX, &mut buf), ERR_NOT_FOUND);
    assert_eq!(buf, [7u8; 4]);
    assert!(big.iter().all(|&b| b == 7));
}

#[test]
fn read_into_short_buffer_writes_nothing() {
    let mut reg = MemoryRegistry::new();
    submit_memory(&mut reg, b"abc123");
    let mut buf = [9u8; 5];
    assert_eq!(get_memory_by_index(&reg, 0, &mut buf), ERR_BUFFER_TOO_SMALL);
    assert_eq!(get_memory_by_index(&reg, 0, &mut buf), -3);
    assert_eq!(buf, [9u8; 5]);
}

#[test]
fn read_into_exact_buffer() {
    let mut reg = MemoryRegistry::new();
    submit_memory(&mut reg, b"abc123");
    let mut buf = [0u8; 6];
    assert_eq!(get_memory_by_index(&reg, 0, &mut buf), 6);
    assert_eq!(&buf, b"abc123");
}

#[test]
fn read_into_empty_buffer_is_invalid_argument() {
    let mut reg = MemoryRegistry::new();
    submit_memory(&mut reg, b"abc");
    let mut buf: [u8; 0] = [];
    assert_eq!(get_memory_by_index(&reg, 0, &mut buf), ERR_INVALID_ARGUMENT);
    assert_eq!(get_memory_by_index(&reg, 5, &mut buf), -1);
}

#[test]
fn read_leaves_tail_of_buffer() {
    let mut reg = MemoryRegistry::new();
    submit_memory(&mut reg, b"ab");
    let mut buf = [5u8; 4];
    assert_eq!(get_memory_by_index(&reg, 0, &mut buf), 2);
    assert_eq!(buf, [b'a', b'b', 5, 5]);
}

#[test]
fn version_and_ping_are_constant() {
    assert_eq!(memory_registry_version(), 1);
    assert_eq!(memory_registry_version(), memory_registry_version());
    assert_eq!(INTERFACE_VERSION, 1);
    assert_eq!(wasm_test_ping(), 0xF00D_BABE);
    assert_eq!(wasm_test_ping(), wasm_test_ping());
    assert_eq!(PING_MAGIC, 0xF00D_BABE);
}

//! Tests of the scenario container: construction bounds, syscall lookup,
//! and the fixed-width little-endian reads.

use rdecompiler::DisasmError;
use rdecompiler::Scenario;
use rdecompiler::Syscall;

fn scenario(bytes: Vec<u8>) -> Scenario {
    let end: u32 = bytes.len() as u32;
    Scenario::new(bytes, Vec::new(), end).unwrap()
}

#[test]
fn new_rejects_stream_end_past_buffer() {
    assert_eq!(
        Scenario::new(vec![1, 2, 3], Vec::new(), 4).unwrap_err(),
        DisasmError::InvalidStreamEnd { offset: 4 }
    );
    assert!(Scenario::new(vec![1, 2, 3], Vec::new(), 3).is_ok());
    assert!(Scenario::new(Vec::new(), Vec::new(), 0).is_ok());
}

#[test]
fn syscall_lookup_by_id() {
    let table = vec![
        Syscall { name: String::from("first"), args: 0 },
        Syscall { name: String::from("second"), args: 3 },
    ];
    let sc = Scenario::new(vec![0, 0, 0, 0], table, 4).unwrap();
    let s = sc.get_syscall(1).unwrap();
    assert_eq!(s.name, "second");
    assert_eq!(s.args, 3);
    assert!(sc.get_syscall(2).is_none());
    assert!(sc.get_syscall(65535).is_none());
    assert_eq!(sc.get_sys_desc_offset(), 4);
}

#[test]
fn unsigned_little_endian_reads() {
    let sc = scenario(vec![0x01, 0x02, 0x03, 0x04, 0xFF]);
    assert_eq!(sc.read_u8(0).unwrap(), 0x01);
    assert_eq!(sc.read_u8(4).unwrap(), 0xFF);
    assert_eq!(sc.read_u16(0).unwrap(), 0x0201);
    assert_eq!(sc.read_u16(2).unwrap(), 0x0403);
    assert_eq!(sc.read_u32(0).unwrap(), 0x04030201);
    assert_eq!(sc.read_u32(1).unwrap(), 0xFF040302);
}

#[test]
fn signed_reads_sign_extend() {
    let sc = scenario(vec![0xFE, 0xFF, 0xFF, 0xFF, 0x7F]);
    assert_eq!(sc.read_i8(0).unwrap(), -2);
    assert_eq!(sc.read_i8(4).unwrap(), 127);
    assert_eq!(sc.read_i16(0).unwrap(), -2);
    assert_eq!(sc.read_i16(3).unwrap(), 0x7FFF);
    assert_eq!(sc.read_i32(0).unwrap(), -2);
    let sc2 = scenario(vec![0x00, 0x00, 0x00, 0x80]);
    assert_eq!(sc2.read_i32(0).unwrap(), i32::MIN);
}

#[test]
fn float_bits_read() {
    let bits = 1.5f32.to_bits().to_le_bytes();
    let sc = scenario(bits.to_vec());
    assert_eq!(f32::from_bits(sc.read_f32_bits(0).unwrap()), 1.5f32);
}

#[test]
fn reads_past_the_buffer_fail() {
    let sc = scenario(vec![1, 2, 3]);
    assert_eq!(sc.read_u8(3).unwrap_err(), DisasmError::OutOfBounds { offset: 3 });
    assert_eq!(sc.read_u16(2).unwrap_err(), DisasmError::OutOfBounds { offset: 2 });
    assert_eq!(sc.read_u32(0).unwrap_err(), DisasmError::OutOfBounds { offset: 0 });
    assert_eq!(sc.read_i32(1).unwrap_err(), DisasmError::OutOfBounds { offset: 1 });
    assert_eq!(
        sc.read_string_bytes(1, 3).unwrap_err(),
        DisasmError::OutOfBounds { offset: 1 }
    );
}

#[test]
fn string_bytes_read() {
    let sc = scenario(vec![b'a', b'b', b'c', b'd']);
    assert_eq!(sc.read_string_bytes(1, 2).unwrap(), vec![b'b', b'c']);
    assert_eq!(sc.read_string_bytes(0, 0).unwrap(), Vec::<u8>::new());
    assert_eq!(sc.read_string_bytes(0, 4).unwrap(), vec![b'a', b'b', b'c', b'd']);
}

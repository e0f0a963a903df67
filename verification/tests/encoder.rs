use st7789::encoder::{collect, send_u8, stream, BYTE_BUFFER, WORD_BUFFER};
use st7789::endian::{
    encode_be, encode_le, from_be_bytes, from_le_bytes, to_be_bytes, to_le_bytes,
};
use st7789::{Action, DataFormat, SpiError};

fn writes_of(plan: &[Action]) -> Vec<Vec<u8>> {
    let mut writes = Vec::new();
    for action in plan {
        match action {
            Action::Write { bytes } => writes.push(bytes.clone()),
            other => panic!("the encoder asked for {:?}", other),
        }
    }
    writes
}

fn ramp(n: usize) -> Vec<u8> {
    (0..n).map(|i| (i % 251) as u8).collect()
}

fn check_chunking(n: usize, cap: usize) {
    let bytes = ramp(n);
    let mut plan = Vec::new();
    stream(&mut plan, &bytes, cap);
    let writes = writes_of(&plan);
    assert_eq!(writes.len(), (n + cap - 1) / cap);
    for (k, write) in writes.iter().enumerate() {
        if k + 1 < writes.len() {
            assert_eq!(write.len(), cap);
        } else {
            assert!(!write.is_empty() && write.len() <= cap);
        }
    }
    assert_eq!(writes.concat(), bytes);
}

#[test]
fn chunking_of_nothing_writes_nothing() {
    let mut plan = Vec::new();
    stream(&mut plan, &[], 32);
    assert!(plan.is_empty());
}

#[test]
fn chunking_below_the_buffer_is_one_write() {
    let mut plan = Vec::new();
    stream(&mut plan, &[1, 2, 3], 32);
    assert_eq!(plan, vec![Action::Write { bytes: vec![1, 2, 3] }]);
}

#[test]
fn chunking_of_a_full_buffer_is_one_write() {
    let bytes = ramp(32);
    let mut plan = Vec::new();
    stream(&mut plan, &bytes, 32);
    assert_eq!(plan, vec![Action::Write { bytes: bytes.clone() }]);
}

#[test]
fn chunking_one_past_the_buffer_is_two_writes() {
    let bytes = ramp(33);
    let mut plan = Vec::new();
    stream(&mut plan, &bytes, 32);
    assert_eq!(
        plan,
        vec![
            Action::Write { bytes: bytes[..32].to_vec() },
            Action::Write { bytes: bytes[32..].to_vec() },
        ]
    );
}

#[test]
fn chunking_is_transparent() {
    for &cap in &[1usize, 2, 3, 7, 32, 64, 100] {
        for &n in &[0usize, 1, cap - 1, cap, cap + 1, 2 * cap, 2 * cap + 1, 1000, 10 * cap + 3] {
            check_chunking(n, cap);
        }
    }
}

#[test]
fn chunking_adds_to_what_the_plan_holds() {
    let mut plan = vec![Action::Delay { us: 5 }];
    stream(&mut plan, &[9, 8, 7], 2);
    assert_eq!(
        plan,
        vec![
            Action::Delay { us: 5 },
            Action::Write { bytes: vec![9, 8] },
            Action::Write { bytes: vec![7] },
        ]
    );
}

#[test]
fn buffer_sizes() {
    assert_eq!(BYTE_BUFFER, 32);
    assert_eq!(WORD_BUFFER, 64);
}

#[test]
fn byte_slice_is_one_write() {
    let bytes = ramp(100);
    let mut plan = Vec::new();
    assert_eq!(send_u8(&mut plan, DataFormat::U8(&bytes)), Ok(()));
    assert_eq!(plan, vec![Action::Write { bytes: bytes.clone() }]);
}

#[test]
fn empty_byte_slice_is_one_empty_write() {
    let mut plan = Vec::new();
    assert_eq!(send_u8(&mut plan, DataFormat::U8(&[])), Ok(()));
    assert_eq!(plan, vec![Action::Write { bytes: vec![] }]);
}

#[test]
fn native_slice_goes_out_as_the_host_holds_it() {
    let values = [0x0102u16, 0xA0B0, 0x00FF];
    let mut expected = Vec::new();
    for v in values.iter() {
        expected.extend_from_slice(&v.to_ne_bytes());
    }
    let mut plan = Vec::new();
    assert_eq!(send_u8(&mut plan, DataFormat::U16(&values)), Ok(()));
    assert_eq!(plan, vec![Action::Write { bytes: expected.clone() }]);
    let le = vec![0x02, 0x01, 0xB0, 0xA0, 0xFF, 0x00];
    let be = vec![0x01, 0x02, 0xA0, 0xB0, 0x00, 0xFF];
    assert!(expected == le || expected == be);
}

#[test]
fn little_endian_slice_is_sent_low_byte_first_and_converted() {
    let mut values = [0x0102u16, 0xA0B0, 0x00FF];
    let mut plan = Vec::new();
    assert_eq!(send_u8(&mut plan, DataFormat::U16LE(&mut values)), Ok(()));
    assert_eq!(plan, vec![Action::Write { bytes: vec![0x02, 0x01, 0xB0, 0xA0, 0xFF, 0x00] }]);
    assert_eq!(values, [0x0102u16.to_le(), 0xA0B0u16.to_le(), 0x00FFu16.to_le()]);
}

#[test]
fn big_endian_slice_is_sent_high_byte_first_and_converted() {
    let mut values = [0x0102u16, 0xA0B0, 0x00FF];
    let mut plan = Vec::new();
    assert_eq!(send_u8(&mut plan, DataFormat::U16BE(&mut values)), Ok(()));
    assert_eq!(plan, vec![Action::Write { bytes: vec![0x01, 0x02, 0xA0, 0xB0, 0x00, 0xFF] }]);
    assert_eq!(values, [0x0102u16.to_be(), 0xA0B0u16.to_be(), 0x00FFu16.to_be()]);
}

#[test]
fn byte_stream_goes_through_a_buffer_of_32() {
    let bytes = ramp(70);
    let mut plan = Vec::new();
    assert_eq!(send_u8(&mut plan, DataFormat::U8Iter(&bytes)), Ok(()));
    assert_eq!(
        plan,
        vec![
            Action::Write { bytes: bytes[..32].to_vec() },
            Action::Write { bytes: bytes[32..64].to_vec() },
            Action::Write { bytes: bytes[64..].to_vec() },
        ]
    );
}

#[test]
fn empty_byte_stream_writes_nothing() {
    let mut plan = Vec::new();
    assert_eq!(send_u8(&mut plan, DataFormat::U8Iter(&[])), Ok(()));
    assert!(plan.is_empty());
}

#[test]
fn big_endian_stream_goes_through_a_buffer_of_64() {
    let values: Vec<u16> = (0..40u16).map(|i| 0x1000 + i).collect();
    let mut bytes = Vec::new();
    for v in values.iter() {
        bytes.push((v >> 8) as u8);
        bytes.push((v & 0xff) as u8);
    }
    let mut plan = Vec::new();
    assert_eq!(send_u8(&mut plan, DataFormat::U16BEIter(&values)), Ok(()));
    assert_eq!(
        plan,
        vec![
            Action::Write { bytes: bytes[..64].to_vec() },
            Action::Write { bytes: bytes[64..].to_vec() },
        ]
    );
}

#[test]
fn little_endian_stream_goes_through_a_buffer_of_64() {
    let values: Vec<u16> = (0..33u16).map(|i| 0x2000 + i).collect();
    let mut bytes = Vec::new();
    for v in values.iter() {
        bytes.push((v & 0xff) as u8);
        bytes.push((v >> 8) as u8);
    }
    let mut plan = Vec::new();
    assert_eq!(send_u8(&mut plan, DataFormat::U16LEIter(&values)), Ok(()));
    assert_eq!(
        plan,
        vec![
            Action::Write { bytes: bytes[..64].to_vec() },
            Action::Write { bytes: bytes[64..].to_vec() },
        ]
    );
}

#[test]
fn format_without_encoding_is_refused_and_writes_nothing() {
    let mut plan = Vec::new();
    assert_eq!(
        send_u8(&mut plan, DataFormat::Other),
        Err(SpiError::DataFormatNotImplemented)
    );
    assert!(plan.is_empty());
}

#[test]
fn byte_order_round_trip() {
    for &v in &[0x0000u16, 0x00FF, 0xFF00, 0xFFFF, 0x1234, 0xF800] {
        assert_eq!(from_le_bytes(to_le_bytes(v)), v);
        assert_eq!(from_be_bytes(to_be_bytes(v)), v);
    }
}

#[test]
fn byte_order_round_trip_of_every_value() {
    for v in 0..=u16::MAX {
        assert_eq!(from_le_bytes(to_le_bytes(v)), v);
        assert_eq!(from_be_bytes(to_be_bytes(v)), v);
        assert_eq!(to_le_bytes(v), v.to_le_bytes());
        assert_eq!(to_be_bytes(v), v.to_be_bytes());
    }
}

#[test]
fn byte_orders_of_a_value() {
    assert_eq!(to_be_bytes(0xF800), [0xF8, 0x00]);
    assert_eq!(to_le_bytes(0xF800), [0x00, 0xF8]);
    assert_eq!(to_be_bytes(0x00FF), [0x00, 0xFF]);
    assert_eq!(to_le_bytes(0x00FF), [0xFF, 0x00]);
    assert_eq!(from_be_bytes([0x12, 0x34]), 0x1234);
    assert_eq!(from_le_bytes([0x12, 0x34]), 0x3412);
}

#[test]
fn byte_orders_of_a_run_of_values() {
    assert_eq!(encode_be(&[0x0102, 0x0304]), vec![1, 2, 3, 4]);
    assert_eq!(encode_le(&[0x0102, 0x0304]), vec![2, 1, 4, 3]);
    assert_eq!(encode_be(&[]), Vec::<u8>::new());
    assert_eq!(encode_le(&[]), Vec::<u8>::new());
}

#[test]
fn collect_keeps_the_order_of_the_stream() {
    assert_eq!(collect(vec![3u16, 1, 2].into_iter()), vec![3, 1, 2]);
    assert_eq!(collect(std::iter::once(7u16)), vec![7]);
    assert_eq!(collect(std::iter::empty::<u16>()), Vec::<u16>::new());
    assert_eq!(collect(0..5u16), vec![0, 1, 2, 3, 4]);
}

use midi_synthesiser::block_buffer::{BlockCursor, BridgeStep};

/// Runs one callback of `len` samples; block `k` holds the sample numbers
/// `k * block_len ..`, so the output shows which rendered sample went where.
fn callback(cursor: &mut BlockCursor, block: &mut Vec<u64>, rendered: &mut u64, len: usize) -> Vec<u64> {
    let mut data = vec![u64::MAX; len];
    let mut i = 0;
    while i < data.len() {
        match cursor.next_step(data.len() - i) {
            BridgeStep::Render => {
                let base = *rendered * block.len() as u64;
                for (k, sample) in block.iter_mut().enumerate() {
                    *sample = base + k as u64;
                }
                *rendered += 1;
            }
            BridgeStep::Copy { start, count } => {
                assert!(count > 0);
                data[i..i + count].copy_from_slice(&block[start..start + count]);
                i += count;
            }
        }
    }
    data
}

#[test]
fn first_step_renders_then_copies_what_fits() {
    let mut cursor = BlockCursor::new(4);
    assert_eq!(cursor.next_step(3), BridgeStep::Render);
    assert_eq!(cursor.next_step(3), BridgeStep::Copy { start: 0, count: 3 });
    // The leftover sample is copied first in the next callback.
    assert_eq!(cursor.next_step(5), BridgeStep::Copy { start: 3, count: 1 });
    assert_eq!(cursor.next_step(4), BridgeStep::Render);
    assert_eq!(cursor.next_step(4), BridgeStep::Copy { start: 0, count: 4 });
}

#[test]
fn callbacks_deliver_every_rendered_sample_once_in_order() {
    let mut cursor = BlockCursor::new(4);
    let mut block = vec![0u64; 4];
    let mut rendered = 0u64;
    let mut delivered = Vec::new();
    for len in [3usize, 3, 6, 1, 0, 7] {
        let data = callback(&mut cursor, &mut block, &mut rendered, len);
        assert_eq!(data.len(), len);
        delivered.extend(data);
    }
    let expected: Vec<u64> = (0..20).collect();
    assert_eq!(delivered, expected);
    // 20 samples need exactly five blocks of four.
    assert_eq!(rendered, 5);
}

#[test]
fn nothing_is_rendered_for_an_empty_request() {
    let mut cursor = BlockCursor::new(8);
    let mut block = vec![0u64; 8];
    let mut rendered = 0u64;
    assert!(callback(&mut cursor, &mut block, &mut rendered, 0).is_empty());
    assert_eq!(rendered, 0);
}

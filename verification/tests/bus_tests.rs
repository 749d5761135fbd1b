use mast_logup::bus::{compute_memory_response_msg, leaf_word, MemoryColumns};

/// `P - 1`, the field element `-1`.
const MINUS_ONE: u64 = 0xffff_ffff_0000_0000;

#[test]
fn leaf_word_selects_the_rate_word() {
    let h: [u64; 12] = [1, 2, 3, 4, 5, 6, 7, 8, 9, 10, 11, 12];
    assert_eq!(leaf_word(&h, 0), [1, 2, 3, 4]);
    assert_eq!(leaf_word(&h, 1), [5, 6, 7, 8]);
    // bit = 2: (1 - 2) * h[i] + 2 * h[i + 4] = 2 * h[i + 4] - h[i]
    assert_eq!(leaf_word(&h, 2), [9, 10, 11, 12]);
}

fn columns(is_read: u64, is_word: u64, idx0: u64, idx1: u64) -> MemoryColumns {
    MemoryColumns {
        is_read,
        is_word,
        ctx: 7,
        word: 100,
        idx0,
        idx1,
        clk: 42,
        values: [11, 22, 33, 44],
    }
}

#[test]
fn memory_labels() {
    assert_eq!(compute_memory_response_msg(&columns(0, 0, 0, 0)).label, 4);
    assert_eq!(compute_memory_response_msg(&columns(1, 0, 0, 0)).label, 12);
    assert_eq!(compute_memory_response_msg(&columns(0, 1, 0, 0)).label, 20);
    assert_eq!(compute_memory_response_msg(&columns(1, 1, 0, 0)).label, 28);
}

#[test]
fn memory_address_and_element() {
    let msg = compute_memory_response_msg(&columns(1, 0, 1, 1));
    assert_eq!(msg.addr, 103);
    assert_eq!(msg.element, 44);
    assert_eq!(msg.ctx, 7);
    assert_eq!(msg.clk, 42);
    assert_eq!(msg.is_word, 0);
    assert_eq!(msg.word, [11, 22, 33, 44]);
    assert_eq!(compute_memory_response_msg(&columns(1, 0, 0, 0)).element, 11);
    assert_eq!(compute_memory_response_msg(&columns(1, 0, 1, 0)).element, 22);
    assert_eq!(compute_memory_response_msg(&columns(1, 0, 0, 1)).element, 33);
    assert_eq!(compute_memory_response_msg(&columns(1, 0, 0, 1)).addr, 102);
}

#[test]
fn memory_formulas_are_field_arithmetic() {
    // A non-boolean read flag: label = (1 - 2) * 4 + 2 * 12 = 20.
    assert_eq!(compute_memory_response_msg(&columns(2, 0, 0, 0)).label, 20);
    // A flag of -1: label = 2 * 4 - 12 = -4.
    assert_eq!(compute_memory_response_msg(&columns(MINUS_ONE, 0, 0, 0)).label, MINUS_ONE - 3);
}

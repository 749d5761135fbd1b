use mast_logup::bus::{compute_memory_response_msg, MemoryColumns};
use mast_logup::challenges::Challenges;
use mast_logup::chiplet_bus::{
    chiplet_bus_columns, AceColumns, ChipletConstants, ChipletRowValues, HasherFlagValues,
    SiblingMsg,
};
use mast_logup::field::QuadFelt;
use mast_logup::logup_msg::{BlockHashMsg, BlockStackMsg, LogUpMessage, MemoryHeader};
use mast_logup::main_bus::{main_bus_columns, MainRowValues, OpFlagValues, VmConstants};
use miden_crypto::Felt;
use miden_crypto::field::{BasedVectorSpace, BinomialExtensionField, Field, PrimeCharacteristicRing};

type EF = BinomialExtensionField<Felt, 2>;

fn ef(a: u64) -> QuadFelt {
    QuadFelt::from_base(a)
}

fn ext(q: QuadFelt) -> EF {
    EF::new([Felt::new(q.c0), Felt::new(q.c1)])
}

fn challenges() -> Challenges {
    Challenges::new(ef(100), ef(7))
}

fn main_row(acc: u64) -> MainRowValues {
    MainRowValues {
        clk: 10,
        ctx: 1,
        fn_hash: [21, 22, 23, 24],
        addr: 64,
        hasher_state: [1, 2, 3, 4, 5, 6, 7, 8],
        op_bits: [0; 7],
        in_span: 0,
        group_count: 0,
        op_batch_flags: [0; 3],
        is_loop_body: 0,
        is_loop: 0,
        is_call: 0,
        is_syscall: 0,
        user_helpers: [0; 4],
        lp_addr: 0,
        lp_cap_prev: [0; 4],
        lp_comm: [0; 4],
        lp_tag: [0; 4],
        lp_r0: [0; 4],
        lp_r1: [0; 4],
        lp_cap_next: [0; 4],
        stream_addr: 0,
        stream_words: [0; 8],
        crypto_src: 0,
        crypto_dst: 0,
        crypto_plain: [0; 8],
        crypto_cipher: [0; 8],
        horner_addr: 0,
        horner_elems: [0; 2],
        horner_word: [0; 4],
        stack: [0; 16],
        b0: 16,
        b1: 0,
        range_m: 0,
        range_v: 0,
        bus_acc: [ef(acc); 5],
    }
}

fn no_flags() -> OpFlagValues {
    OpFlagValues {
        join: 0,
        split: 0,
        span: 0,
        dyn_op: 0,
        loop_op: 0,
        dyncall: 0,
        call: 0,
        syscall: 0,
        end: 0,
        respan: 0,
        repeat: 0,
        halt: 0,
        hperm: 0,
        mpverify: 0,
        mrupdate: 0,
        mload: 0,
        mstore: 0,
        mloadw: 0,
        mstorew: 0,
        u32and: 0,
        u32xor: 0,
        evalcircuit: 0,
        log_precompile: 0,
        push: 0,
        mstream: 0,
        pipe: 0,
        cryptostream: 0,
        hornerbase: 0,
        hornerext: 0,
    }
}

fn vm_constants() -> VmConstants {
    VmConstants {
        op_join: 87,
        op_split: 86,
        op_loop: 85,
        op_call: 92,
        op_syscall: 93,
        op_dyn: 88,
        op_dyncall: 89,
        fmp_addr: 1 << 30,
        fmp_init_value: 1 << 31,
        hash_cycle_len: 32,
    }
}

#[test]
fn idle_main_row_leaves_every_accumulator_but_the_range_table_unchanged() {
    let ch = challenges();
    let row = main_row(5);
    let next = main_row(9);
    let r = main_bus_columns(&row, &next, &no_flags(), &no_flags(), &vm_constants(), &ch);
    let delta = EF::from(Felt::new(4));
    for k in 1..5 {
        assert_eq!(r[k].first_row, ef(5));
        assert_eq!(r[k].last_row, ef(5));
        assert_eq!(ext(r[k].transition), delta);
    }
    // The range table response is always active; with multiplicity 0 it only scales by its
    // denominator.
    let v_range = ext(ch.encode(&[0]));
    assert_eq!(ext(r[0].transition), delta * v_range);
}

#[test]
fn join_row_pushes_the_block_enqueues_both_children_and_requests_the_hash() {
    let ch = challenges();
    let row = main_row(5);
    let mut next = main_row(9);
    next.addr = 96;
    let mut flags = no_flags();
    flags.join = 1;
    let consts = vm_constants();
    let r = main_bus_columns(&row, &next, &flags, &no_flags(), &consts, &ch);
    let delta = EF::from(Felt::new(4));

    // M1: the block stack push, next to the range table response.
    let v_push = ext(BlockStackMsg::Simple { block_id: 96, parent_id: 64, is_loop: 0 }.encode(&ch));
    let v_range = ext(ch.encode(&[0]));
    assert_eq!(ext(r[0].transition), delta * v_push * v_range - v_range);

    // M2: both children, as one batch.
    let v1 = ext(BlockHashMsg::FirstChild { parent: 96, child_hash: [1, 2, 3, 4] }.encode(&ch));
    let v2 = ext(BlockHashMsg::Child { parent: 96, child_hash: [5, 6, 7, 8] }.encode(&ch));
    assert_eq!(ext(r[1].transition), delta * v1 * v2 - (v1 + v2));

    // M3: the control block request with the JOIN opcode.
    let v_hash = ext(ch.encode(&[19, 96, 0, 1, 2, 3, 4, 5, 6, 7, 8, 0, 87, 0, 0]));
    assert_eq!(ext(r[2].transition), delta * v_hash + EF::ONE);

    // M4 and M5 see nothing.
    assert_eq!(ext(r[3].transition), delta);
    assert_eq!(ext(r[4].transition), delta);
}

fn quad(e: EF) -> QuadFelt {
    let c: &[Felt] = e.as_basis_coefficients_slice();
    QuadFelt { c0: c[0].as_canonical_u64(), c1: c[1].as_canonical_u64() }
}

#[test]
fn mstream_row_requests_two_word_reads() {
    let ch = challenges();
    let mut row = main_row(0);
    row.stream_addr = 40;
    row.stream_words = [1, 2, 3, 4, 5, 6, 7, 8];
    let mut flags = no_flags();
    flags.mstream = 1;
    let w0 = ext(ch.encode(&[28, 1, 40, 10, 1, 2, 3, 4]));
    let w1 = ext(ch.encode(&[28, 1, 44, 10, 5, 6, 7, 8]));
    // M3 balances exactly when the accumulator drops by 1/w0 + 1/w1.
    let delta = -(w0.inverse() + w1.inverse());
    let mut next = main_row(0);
    next.bus_acc[2] = quad(delta);
    let r = main_bus_columns(&row, &next, &flags, &no_flags(), &vm_constants(), &ch);
    assert_eq!(ext(r[2].transition), EF::ZERO);
    let next = main_row(0);
    let r = main_bus_columns(&row, &next, &flags, &no_flags(), &vm_constants(), &ch);
    assert_eq!(ext(r[2].transition), w0 + w1);
}

#[test]
fn stream_and_horner_rows_request_their_memory_accesses() {
    let ch = challenges();
    let mut row = main_row(0);
    row.stream_addr = 40;
    row.stream_words = [1, 2, 3, 4, 5, 6, 7, 8];
    row.crypto_src = 80;
    row.crypto_dst = 120;
    row.crypto_plain = [1, 1, 1, 1, 2, 2, 2, 2];
    row.crypto_cipher = [3, 3, 3, 3, 4, 4, 4, 4];
    row.horner_addr = 200;
    row.horner_elems = [9, 10];
    row.horner_word = [9, 10, 11, 12];
    let next = main_row(0);
    // With delta = 0 the transition is -V = -N of the active batch.
    let batch_n = |vs: &[EF]| {
        let mut n = EF::ZERO;
        let mut d = EF::ONE;
        for v in vs {
            n = n * *v - d;
            d = d * *v;
        }
        n
    };

    let mut flags = no_flags();
    flags.pipe = 1;
    let r = main_bus_columns(&row, &next, &flags, &no_flags(), &vm_constants(), &ch);
    let vs = [ext(ch.encode(&[20, 1, 40, 10, 1, 2, 3, 4])), ext(ch.encode(&[20, 1, 44, 10, 5, 6, 7, 8]))];
    assert_eq!(ext(r[2].transition), -batch_n(&vs));

    let mut flags = no_flags();
    flags.cryptostream = 1;
    let r = main_bus_columns(&row, &next, &flags, &no_flags(), &vm_constants(), &ch);
    let vs = [
        ext(ch.encode(&[28, 1, 80, 10, 1, 1, 1, 1])),
        ext(ch.encode(&[28, 1, 84, 10, 2, 2, 2, 2])),
        ext(ch.encode(&[20, 1, 120, 10, 3, 3, 3, 3])),
        ext(ch.encode(&[20, 1, 124, 10, 4, 4, 4, 4])),
    ];
    assert_eq!(ext(r[2].transition), -batch_n(&vs));

    let mut flags = no_flags();
    flags.hornerbase = 1;
    let r = main_bus_columns(&row, &next, &flags, &no_flags(), &vm_constants(), &ch);
    let vs = [ext(ch.encode(&[12, 1, 200, 10, 9])), ext(ch.encode(&[12, 1, 201, 10, 10]))];
    assert_eq!(ext(r[2].transition), -batch_n(&vs));

    let mut flags = no_flags();
    flags.hornerext = 1;
    let r = main_bus_columns(&row, &next, &flags, &no_flags(), &vm_constants(), &ch);
    assert_eq!(ext(r[2].transition), EF::ONE);
}

#[test]
fn u32_row_range_checks_the_four_helpers() {
    let ch = challenges();
    let mut row = main_row(0);
    row.op_bits = [0, 0, 0, 0, 0, 0, 1];
    row.user_helpers = [3, 5, 7, 11];
    let next = main_row(0);
    let r = main_bus_columns(&row, &next, &no_flags(), &no_flags(), &vm_constants(), &ch);
    // delta = 0, so the transition is -V = -N, with N the numerator of four removes.
    let vs: Vec<EF> = [3u64, 5, 7, 11].iter().map(|v| ext(ch.encode(&[*v]))).collect();
    let mut n = EF::ZERO;
    let mut d = EF::ONE;
    for v in vs {
        n = n * v - d;
        d = d * v;
    }
    assert_eq!(ext(r[3].transition), -n);
}

fn chiplet_row(acc: u64) -> ChipletRowValues {
    ChipletRowValues {
        clk: 3,
        selectors: [0; 5],
        hasher_state: [1, 2, 3, 4, 5, 6, 7, 8, 9, 10, 11, 12],
        node_index: 0,
        bitwise_sel: 0,
        bitwise_a: 0,
        bitwise_b: 0,
        bitwise_z: 0,
        k_transition: 1,
        memory: MemoryColumns {
            is_read: 0,
            is_word: 0,
            ctx: 0,
            word: 0,
            idx0: 0,
            idx1: 0,
            clk: 0,
            values: [0; 4],
        },
        ace: AceColumns {
            selector_start: 0,
            selector_block: 0,
            clk: 0,
            ctx: 0,
            ptr: 0,
            eval_op: 0,
            read_num_eval: 0,
            id: [0; 3],
            v0: [0; 3],
            v1: [0; 3],
            m0: 0,
            m1: 0,
        },
        kernel_first: 0,
        kernel_root: [0; 4],
        bus_acc: [ef(acc); 3],
    }
}

fn no_hasher_flags() -> HasherFlagValues {
    HasherFlagValues {
        f_bp: 0,
        f_mp: 0,
        f_mv: 0,
        f_mu: 0,
        f_hout: 0,
        f_sout: 0,
        f_abp: 0,
        f_mva: 0,
        f_mua: 0,
    }
}

fn chiplet_constants() -> ChipletConstants {
    ChipletConstants { kernel_proc_init_label: 48, ace_id1_offset: 1 << 30, ace_id2_offset: 1 << 60 }
}

#[test]
fn bitwise_row_responds_on_the_last_row_of_its_cycle() {
    let ch = challenges();
    let mut row = chiplet_row(0);
    row.selectors = [1, 0, 0, 0, 0];
    row.k_transition = 0;
    row.bitwise_sel = 1;
    row.bitwise_a = 12;
    row.bitwise_b = 10;
    row.bitwise_z = 6;
    let next = chiplet_row(1);
    let r = chiplet_bus_columns(&row, &next, &no_hasher_flags(), &chiplet_constants(), &ch);
    let v = ext(ch.encode(&[6, 12, 10, 6]));
    assert_eq!(ext(r[0].transition), v - EF::ONE);
    assert_eq!(ext(r[1].transition), EF::ONE);
    assert_eq!(ext(r[2].transition), EF::ONE);

    // Within the cycle the chiplet does not respond.
    row.k_transition = 1;
    let r = chiplet_bus_columns(&row, &next, &no_hasher_flags(), &chiplet_constants(), &ch);
    assert_eq!(ext(r[0].transition), EF::ONE);
}

#[test]
fn ace_read_row_wires_and_reads_memory() {
    let ch = challenges();
    let mut row = chiplet_row(0);
    row.selectors = [1, 1, 1, 0, 0];
    row.ace = AceColumns {
        selector_start: 0,
        selector_block: 0,
        clk: 5,
        ctx: 2,
        ptr: 40,
        eval_op: 0,
        read_num_eval: 0,
        id: [9, 8, 7],
        v0: [1, 2, 3],
        v1: [4, 5, 6],
        m0: 2,
        m1: 3,
    };
    let next = chiplet_row(1);
    let r = chiplet_bus_columns(&row, &next, &no_hasher_flags(), &chiplet_constants(), &ch);
    // C2: the word [v0_0, v1_0, v0_1, v1_1] is read from memory.
    let v_mem = ext(ch.encode(&[28, 2, 40, 5, 1, 4, 2, 5]));
    assert_eq!(ext(r[1].transition), v_mem + EF::ONE);
    // C3: wire 0 with fan-out 2 and wire 1 with fan-out 3.
    let w0 = ext(ch.encode(&[5, 2, 9, 1, 4]));
    let w1 = ext(ch.encode(&[5, 2, 8, 2, 5]));
    let n = EF::from(Felt::new(2)) * w1 + w0 * EF::from(Felt::new(3));
    assert_eq!(ext(r[2].transition), w0 * w1 - n);
}

#[test]
fn sibling_selects_the_other_rate_word() {
    let lo = [1, 2, 3, 4];
    let hi = [5, 6, 7, 8];
    assert_eq!(SiblingMsg::select(9, 0, &lo, &hi).sibling, hi);
    assert_eq!(SiblingMsg::select(9, 1, &lo, &hi).sibling, lo);
}

#[test]
fn memory_response_matches_the_request_it_answers() {
    let ch = challenges();
    let cols = MemoryColumns {
        is_read: 1,
        is_word: 1,
        ctx: 7,
        word: 100,
        idx0: 0,
        idx1: 0,
        clk: 42,
        values: [11, 22, 33, 44],
    };
    let response = compute_memory_response_msg(&cols);
    let request = MemoryHeader { ctx: 7, addr: 100, clk: 42 }.read_word([11, 22, 33, 44]);
    assert_eq!(response.encode_with(&ch), request.encode(&ch));

    let cols = MemoryColumns { is_word: 0, is_read: 0, idx0: 1, idx1: 1, ..cols };
    let response = compute_memory_response_msg(&cols);
    let request = MemoryHeader { ctx: 7, addr: 103, clk: 42 }.write_element(44);
    assert_eq!(response.encode_with(&ch), request.encode(&ch));
}

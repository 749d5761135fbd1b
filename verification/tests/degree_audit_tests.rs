//! Degree budget of the LogUp batches: a batch of interactions gated by a selector of degree
//! `deg(s)` costs `deg(s) + max(deg(D), deg(N))`.

// Batch cost = deg(s) + max(deg(D), deg(N))
// For constant multiplicities and all deg(d_i) >= 1: max(D,N) = D
fn batch_cost(label: &str, sel_deg: usize, denom_degs: &[usize]) -> usize {
    let deg_d: usize = denom_degs.iter().sum();
    // N = max_i(deg(m_i) + sum_{j!=i} deg(d_j)) where deg(m_i) = 0 for constant mult
    let deg_n = if denom_degs.is_empty() {
        0
    } else {
        denom_degs.iter().sum::<usize>() - denom_degs.iter().min().unwrap()
    };
    let cost = sel_deg + deg_d.max(deg_n);
    println!("  {label:50} sel={sel_deg} D={deg_d} N={deg_n} → cost={cost}");
    cost
}

// With non-constant multiplicity
fn batch_cost_m(
    label: &str,
    sel_deg: usize,
    interactions: &[(usize, usize)], // (deg_m, deg_d) pairs
) -> usize {
    let deg_d: usize = interactions.iter().map(|(_, d)| d).sum();
    let deg_n = interactions
        .iter()
        .enumerate()
        .map(|(i, (m, _))| {
            m + interactions
                .iter()
                .enumerate()
                .filter(|(j, _)| *j != i)
                .map(|(_, (_, d))| d)
                .sum::<usize>()
        })
        .max()
        .unwrap_or(0);
    let cost = sel_deg + deg_d.max(deg_n);
    println!("  {label:50} sel={sel_deg} D={deg_d} N={deg_n} → cost={cost}");
    cost
}

#[test]
#[allow(clippy::print_stdout)]
fn audit_batch_costs() {
    println!("=== PART 3: Batch costs (deg(s) + max(deg(D), deg(N))) ===\n");

    // ---- Main trace: G_p1 (block stack) ----
    println!("--- G_p1: block stack ---");
    assert_eq!(batch_cost("JOIN push", 5, &[1]), 6);
    assert_eq!(batch_cost("RESPAN push+pop", 4, &[1, 1]), 6);
    assert_eq!(batch_cost("DYNCALL push", 5, &[1]), 6);
    println!("  → cost(G_p1) = max = 6\n");

    // ---- Main trace: G_p2 (block hash) ----
    println!("--- G_p2: block hash ---");
    assert_eq!(batch_cost("JOIN left*right", 5, &[1, 1]), 7);
    assert_eq!(batch_cost("SPLIT (msg deg 2)", 5, &[2]), 7);
    // LOOP: s0 gate makes selector deg 6
    assert_eq!(batch_cost("LOOP body (sel=is_loop*s0)", 6, &[1]), 7);
    assert_eq!(batch_cost("END pop (msg deg 4)", 4, &[4]), 8);
    assert_eq!(batch_cost("REPEAT", 4, &[1]), 5);
    assert_eq!(batch_cost("DYN/DYNCALL/CALL/SYSCALL", 5, &[1]), 6);
    println!("  → cost(G_p2) = max = 8\n");

    // ---- Main trace: G_chip (chiplets requests) ----
    println!("--- G_chip: chiplets requests ---");
    assert_eq!(batch_cost("JOIN hasher", 5, &[1]), 6);
    assert_eq!(batch_cost("CALL hasher+fmp", 4, &[1, 1]), 6);
    assert_eq!(batch_cost("DYN zeros+callee", 5, &[1, 1]), 7);
    assert_eq!(batch_cost("DYNCALL zeros+callee+fmp", 5, &[1, 1, 1]), 8);
    assert_eq!(batch_cost("MLOAD", 7, &[1]), 8);
    assert_eq!(batch_cost("U32AND", 7, &[1]), 8);
    assert_eq!(batch_cost("HPERM in+out", 5, &[1, 1]), 7);
    assert_eq!(batch_cost("MRUPDATE 4 msgs", 4, &[1, 1, 1, 1]), 8);
    assert_eq!(batch_cost("CRYPTOSTREAM 4 msgs", 4, &[1, 1, 1, 1]), 8);
    assert_eq!(batch_cost("LOGPRE hasher_in+out", 5, &[1, 1]), 7);
    println!("  → cost(G_chip) = max = 8\n");

    // ---- Main trace: G_p3 (op group) ----
    println!("--- G_p3: op group ---");
    assert_eq!(batch_cost("g8 (7 groups)", 1, &[1, 1, 1, 1, 1, 1, 1]), 8);
    assert_eq!(batch_cost("g4 (3 groups)", 3, &[1, 1, 1]), 6);
    assert_eq!(batch_cost("g2 (1 group)", 3, &[1]), 4);
    assert_eq!(batch_cost("removal (deg(d)=6)", 2, &[6]), 8);
    println!("  → cost(G_p3) = max = 8\n");

    // ---- Main trace: G_range ----
    println!("--- G_range: stack lookups ---");
    assert_eq!(batch_cost("4 stack lookups", 3, &[1, 1, 1, 1]), 7);
    println!("  → cost(G_range) = 7\n");

    // ---- Main trace: G_range_resp ----
    println!("--- G_range_resp ---");
    assert_eq!(batch_cost_m("range response (m=M deg 1)", 0, &[(1, 1)]), 1);
    println!("  → cost(G_range_resp) = 1\n");

    // ---- Main trace: G_hk_main ----
    println!("--- G_hk_main: logprecompile hash_kernel ---");
    assert_eq!(batch_cost("cap_prev + cap_next", 5, &[1, 1]), 7);
    println!("  → cost(G_hk_main) = 7\n");

    // ---- Chiplet trace: G_chip_resp ----
    println!("--- G_chip_resp: all chiplet responses ---");
    assert_eq!(batch_cost("hasher f_bp (full state)", 5, &[1]), 6);
    assert_eq!(batch_cost("hasher f_mv (cond leaf)", 5, &[2]), 7);
    assert_eq!(batch_cost("hasher f_hout (digest)", 5, &[1]), 6);
    assert_eq!(batch_cost("bitwise (computed label)", 4, &[2]), 6);
    assert_eq!(batch_cost("memory (label+elem select)", 3, &[3]), 6);
    assert_eq!(batch_cost("kernel_rom (computed label)", 5, &[2]), 7);
    println!("  → cost(G_chip_resp) = max = 7\n");

    // ---- Chiplet trace: G_hk_chip ----
    println!("--- G_hk_chip: hash_kernel chiplet entries ---");
    assert_eq!(batch_cost("sibling (cond select)", 5, &[2]), 7);
    assert_eq!(batch_cost("ACE word read", 5, &[1]), 6);
    assert_eq!(batch_cost("ACE elem read", 5, &[1]), 6);
    println!("  → cost(G_hk_chip) = max = 7\n");

    // ---- Chiplet trace: G_range_chip ----
    println!("--- G_range_chip: memory range lookups ---");
    assert_eq!(batch_cost("D0 + D1", 3, &[1, 1]), 5);
    println!("  → cost(G_range_chip) = 5\n");

    // ---- Chiplet trace: G_wiring ----
    println!("--- G_wiring: ACE wiring ---");
    assert_eq!(batch_cost("READ 2 wires", 5, &[1, 1]), 7);
    assert_eq!(batch_cost("EVAL 3 wires", 5, &[1, 1, 1]), 8);
    println!("  → cost(G_wiring) = max = 8\n");

    // ---- Column packing ----
    println!("=== Column packing (budget = D_max - 1 = 8) ===\n");

    let m1 = 6 + 1; // G_p1 + G_range_resp (overlap, sum)
    let m2 = 8; // G_p2 (single group)
    let m3 = 8; // G_chip (single group)
    let m4 = 7usize.max(7); // {G_hk_main, G_range} ME → max
    let m5 = 8; // G_p3 (single group)
    let c1 = 7; // G_chip_resp (single group)
    let c2 = 7usize.max(5); // {G_hk_chip, G_range_chip} ME → max
    let c3 = 8; // G_wiring (single group)

    println!("  M1: G_p1 + G_range_resp       cost={m1}  degree={}", 1 + m1);
    println!("  M2: G_p2                       cost={m2}  degree={}", 1 + m2);
    println!("  M3: G_chip                     cost={m3}  degree={}", 1 + m3);
    println!("  M4: {{G_hk_main, G_range}}      cost={m4}  degree={}", 1 + m4);
    println!("  M5: G_p3                       cost={m5}  degree={}", 1 + m5);
    println!("  C1: G_chip_resp                cost={c1}  degree={}", 1 + c1);
    println!("  C2: {{G_hk_chip, G_range_chip}} cost={c2}  degree={}", 1 + c2);
    println!("  C3: G_wiring                   cost={c3}  degree={}", 1 + c3);

    assert!(1 + m1 <= 9, "M1 exceeds degree 9");
    assert!(1 + m2 <= 9, "M2 exceeds degree 9");
    assert!(1 + m3 <= 9, "M3 exceeds degree 9");
    assert!(1 + m4 <= 9, "M4 exceeds degree 9");
    assert!(1 + m5 <= 9, "M5 exceeds degree 9");
    assert!(1 + c1 <= 9, "C1 exceeds degree 9");
    assert!(1 + c2 <= 9, "C2 exceeds degree 9");
    assert!(1 + c3 <= 9, "C3 exceeds degree 9");

    println!("\n  Total: 5 main + 3 chiplet = 8 columns, all ≤ degree 9 ✓");
}

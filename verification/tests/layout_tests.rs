use gpu_ecmult::errors::LayoutError;
use gpu_ecmult::layout::concat_partitions;
use gpu_ecmult::layout::partition_words;
use gpu_ecmult::layout::translate_context;
use gpu_ecmult::layout::ENTRY_BYTES;
use gpu_ecmult::table::secp256k1_ecmult_gen_context;
use gpu_ecmult::table::secp256k1_fe;
use gpu_ecmult::table::secp256k1_fe_storage;
use gpu_ecmult::table::secp256k1_ge_storage;
use gpu_ecmult::table::secp256k1_gej;
use gpu_ecmult::table::secp256k1_scalar;
use gpu_ecmult::TABLE_ENTRIES;

fn patterned_entry(i: u32) -> secp256k1_ge_storage {
    let mut x = [0u32; 8];
    let mut y = [0u32; 8];
    for k in 0..8 {
        x[k] = i * 100 + k as u32;
        y[k] = i * 100 + 50 + k as u32;
    }
    secp256k1_ge_storage {
        x: secp256k1_fe_storage { n: x },
        y: secp256k1_fe_storage { n: y },
    }
}

fn patterned_context() -> secp256k1_ecmult_gen_context {
    let mut prec = Vec::new();
    for i in 0..TABLE_ENTRIES {
        prec.push(patterned_entry(i as u32));
    }
    secp256k1_ecmult_gen_context {
        prec,
        blind: secp256k1_scalar { d: [1, 2, 3, 4, 5, 6, 7, 8] },
        initial: secp256k1_gej {
            x: secp256k1_fe { n: [10; 10] },
            y: secp256k1_fe { n: [11; 10] },
            z: secp256k1_fe { n: [12; 10] },
            infinity: 0,
        },
    }
}

fn entries_equal(a: &secp256k1_ge_storage, b: &secp256k1_ge_storage) -> bool {
    a.x.n == b.x.n && a.y.n == b.y.n
}

#[test]
fn quarter_partitioning_round_trips() {
    let ctx = patterned_context();
    // A 16 KiB uniform-buffer limit forces four quarters of 16 rows each.
    let t = translate_context(&ctx, 16384).expect("translation succeeds");
    assert_eq!(t.partitions.len(), 4);
    for p in &t.partitions {
        assert_eq!(p.entries.len(), 256);
        assert!(p.entries.len() * ENTRY_BYTES <= 16384);
    }
    let back = concat_partitions(&t);
    assert_eq!(back.len(), TABLE_ENTRIES);
    for i in 0..TABLE_ENTRIES {
        assert!(entries_equal(&back[i], &ctx.prec[i]));
    }
    assert_eq!(t.rest.blind.d, ctx.blind.d);
    assert_eq!(t.rest.initial.x.n, ctx.initial.x.n);
    assert_eq!(t.rest.initial.infinity, ctx.initial.infinity);
}

#[test]
fn partition_count_follows_buffer_limit() {
    let ctx = patterned_context();
    let cases: [(usize, usize); 7] = [
        (65536, 1),
        (32768, 2),
        (16384, 4),
        (8192, 8),
        (4096, 16),
        (2048, 32),
        (1024, 64),
    ];
    for (max, expected) in cases {
        let t = translate_context(&ctx, max).expect("translation succeeds");
        assert_eq!(t.partitions.len(), expected);
        // Row alignment: 64 rows split evenly over the partitions.
        assert_eq!(64 % t.partitions.len(), 0);
        for p in &t.partitions {
            assert!(p.entries.len() * ENTRY_BYTES <= max);
            assert_eq!(p.entries.len() % 16, 0);
        }
    }
    // An odd limit rounds down to the same partitioning as the next
    // power-of-two threshold below it.
    let t = translate_context(&ctx, 20000).expect("translation succeeds");
    assert_eq!(t.partitions.len(), 4);
}

#[test]
fn translation_is_idempotent() {
    let ctx = patterned_context();
    let t1 = translate_context(&ctx, 16384).expect("translation succeeds");
    let t2 = translate_context(&ctx, 16384).expect("translation succeeds");
    assert_eq!(t1.partitions.len(), t2.partitions.len());
    for (p1, p2) in t1.partitions.iter().zip(t2.partitions.iter()) {
        assert_eq!(p1.entries.len(), p2.entries.len());
        for (e1, e2) in p1.entries.iter().zip(p2.entries.iter()) {
            assert!(entries_equal(e1, e2));
        }
        assert_eq!(partition_words(p1), partition_words(p2));
    }
    assert_eq!(t1.rest.blind.d, t2.rest.blind.d);
}

#[test]
fn buffer_below_one_row_is_rejected() {
    let ctx = patterned_context();
    match translate_context(&ctx, 1023) {
        Err(LayoutError::BufferTooSmall) => {}
        _ => panic!("a limit below one row group must be rejected"),
    }
}

#[test]
fn misshapen_table_is_rejected() {
    let mut ctx = patterned_context();
    ctx.prec.pop();
    match translate_context(&ctx, 65536) {
        Err(LayoutError::ShapeMismatch) => {}
        _ => panic!("a table that is not 64x16 must be rejected"),
    }
}

#[test]
fn rest_words_hold_blind_point_and_flag() {
    let ctx = patterned_context();
    let t = translate_context(&ctx, 65536).expect("translation succeeds");
    let words = gpu_ecmult::layout::rest_words(&t.rest);
    assert_eq!(words.len(), 39);
    assert_eq!(&words[0..8], &[1, 2, 3, 4, 5, 6, 7, 8]);
    assert!(words[8..18].iter().all(|&w| w == 10));
    assert!(words[18..28].iter().all(|&w| w == 11));
    assert!(words[28..38].iter().all(|&w| w == 12));
    assert_eq!(words[38], 0);
}

#[test]
fn partition_words_are_limbs_in_entry_order() {
    let entry0 = patterned_entry(0);
    let entry1 = patterned_entry(1);
    let part = gpu_ecmult::layout::ContextPartition {
        entries: vec![entry0, entry1],
    };
    let words = partition_words(&part);
    assert_eq!(words.len(), 32);
    for k in 0..8 {
        assert_eq!(words[k], k as u32);
        assert_eq!(words[8 + k], 50 + k as u32);
        assert_eq!(words[16 + k], 100 + k as u32);
        assert_eq!(words[24 + k], 150 + k as u32);
    }
}

//! Context Layout Translator: turns the generator-multiplication context into
//! GPU-uniform-buffer-sized partitions.
//!
//! The 64x16 precomputed table is split into N partitions of whole rows, so
//! that no entry spans two partitions and each partition's byte size stays
//! within the target device's maximum uniform-buffer range. Concatenating the
//! partitions in binding order reconstructs the table exactly. The small
//! "rest" structure (blinding scalar and initial projective point) is copied
//! once, unpartitioned.

use vstd::prelude::*;

use crate::errors::LayoutError;
use crate::table::secp256k1_ecmult_gen_context;
use crate::table::secp256k1_ge_storage;
use crate::table::secp256k1_gej;
use crate::table::secp256k1_scalar;

verus! {

/// 32-bit words in one compact table entry (two field elements of 8 limbs).
pub const ENTRY_WORDS: usize = 16;

/// Byte size of one compact table entry.
pub const ENTRY_BYTES: usize = 64;

/// Byte size of one table row group (16 entries).
pub const ROW_BYTES: usize = 1024;

/// One uniform-buffer-sized slice of the precomputed table: a contiguous run
/// of whole table rows.
pub struct ContextPartition {
    pub entries: Vec<secp256k1_ge_storage>,
}

/// The unpartitioned remainder of the context: the blinding scalar and the
/// initial projective point.
pub struct ContextRest {
    pub blind: secp256k1_scalar,
    pub initial: secp256k1_gej,
}

/// The translated context: table partitions in binding order plus the rest
/// structure. Produced once at startup and shared read-only by every device
/// session.
pub struct TranslatedContext {
    pub partitions: Vec<ContextPartition>,
    pub rest: ContextRest,
}

/// The partition count chosen for a device whose maximum uniform-buffer range
/// is `max_buffer_size` bytes: the smallest power-of-two divisor of the 64
/// table rows whose per-partition byte size fits. Meaningful only when at
/// least one row group fits (`max_buffer_size >= ROW_BYTES`).
pub open spec fn chosen_partition_count(max_buffer_size: int) -> int {
    if 65536 <= max_buffer_size {
        1
    } else if 32768 <= max_buffer_size {
        2
    } else if 16384 <= max_buffer_size {
        4
    } else if 8192 <= max_buffer_size {
        8
    } else if 4096 <= max_buffer_size {
        16
    } else if 2048 <= max_buffer_size {
        32
    } else {
        64
    }
}

/// Entries in each partition for the count chosen above.
pub open spec fn chosen_chunk_size(max_buffer_size: int) -> int {
    crate::TABLE_ENTRIES as int / chosen_partition_count(max_buffer_size)
}

/// Everything a successful translation promises: the chosen partition count
/// divides the row count, every partition is the corresponding contiguous
/// row-aligned slice of the table, each partition fits the buffer limit, and
/// the rest structure is copied unchanged.
pub open spec fn translation_ok(
    ctx: secp256k1_ecmult_gen_context,
    max_buffer_size: int,
    t: TranslatedContext,
) -> bool {
    let p = chosen_partition_count(max_buffer_size);
    let chunk = chosen_chunk_size(max_buffer_size);
    &&& t.partitions@.len() == p
    &&& crate::TABLE_ROWS as int % p == 0
    &&& chunk == (crate::TABLE_ROWS as int / p) * crate::TABLE_COLS as int
    &&& chunk * ENTRY_BYTES as int <= max_buffer_size
    &&& forall|i: int|
        0 <= i < p ==> (#[trigger] t.partitions@[i].entries@) == ctx.prec@.subrange(
            i * chunk,
            (i + 1) * chunk,
        )
    &&& t.rest.blind == ctx.blind
    &&& t.rest.initial == ctx.initial
}

/// Translates a generator-multiplication context into uniform-buffer-sized
/// partitions plus the rest structure.
///
/// Fails with `LayoutError::ShapeMismatch` exactly when the context table
/// does not have the protocol-fixed 64x16 shape, and with
/// `LayoutError::BufferTooSmall` exactly when the shape is right but
/// `max_buffer_size` cannot hold even one table row group.
pub fn translate_context(ctx: &secp256k1_ecmult_gen_context, max_buffer_size: usize) -> (r: Result<
    TranslatedContext,
    LayoutError,
>)
    ensures
        match r {
            Ok(t) => ctx.table_well_shaped() && max_buffer_size >= ROW_BYTES && translation_ok(
                *ctx,
                max_buffer_size as int,
                t,
            ),
            Err(e) => {
                &&& !ctx.table_well_shaped() || max_buffer_size < ROW_BYTES
                &&& (e is ShapeMismatch <==> !ctx.table_well_shaped())
                &&& (e is BufferTooSmall <==> ctx.table_well_shaped() && max_buffer_size
                    < ROW_BYTES)
            },
        },
{
    if ctx.prec.len() != crate::TABLE_ENTRIES {
        return Err(LayoutError::ShapeMismatch);
    }
    if max_buffer_size < ROW_BYTES {
        return Err(LayoutError::BufferTooSmall);
    }
    let pcount: usize = if max_buffer_size >= 65536 {
        1
    } else if max_buffer_size >= 32768 {
        2
    } else if max_buffer_size >= 16384 {
        4
    } else if max_buffer_size >= 8192 {
        8
    } else if max_buffer_size >= 4096 {
        16
    } else if max_buffer_size >= 2048 {
        32
    } else {
        64
    };
    let chunk: usize = crate::TABLE_ENTRIES / pcount;
    let mut partitions: Vec<ContextPartition> = Vec::new();
    let mut i: usize = 0;
    while i < pcount
        invariant
            i <= pcount,
            pcount == chosen_partition_count(max_buffer_size as int),
            chunk == chosen_chunk_size(max_buffer_size as int),
            chunk * pcount == crate::TABLE_ENTRIES,
            ctx.prec@.len() == crate::TABLE_ENTRIES,
            partitions@.len() == i,
            forall|k: int|
                0 <= k < i ==> (#[trigger] partitions@[k].entries@) == ctx.prec@.subrange(
                    k * chunk,
                    (k + 1) * chunk,
                ),
        decreases pcount - i,
    {
        let mut entries: Vec<secp256k1_ge_storage> = Vec::new();
        let mut j: usize = 0;
        while j < chunk
            invariant
                j <= chunk,
                i < pcount,
                chunk * pcount == crate::TABLE_ENTRIES,
                ctx.prec@.len() == crate::TABLE_ENTRIES,
                entries@.len() == j,
                forall|m: int|
                    0 <= m < j ==> #[trigger] entries@[m] == ctx.prec@[i * chunk + m],
            decreases chunk - j,
        {
            assert(i * chunk + j < pcount * chunk) by (nonlinear_arith)
                requires
                    i < pcount,
                    j < chunk,
            ;
            entries.push(ctx.prec[i * chunk + j]);
            j += 1;
        }
        proof {
            assert(0 <= i * chunk && (i + 1) * chunk == i * chunk + chunk && (i + 1) * chunk
                <= pcount * chunk && pcount * chunk == chunk * pcount) by (nonlinear_arith)
                requires
                    0 <= i < pcount,
                    0 <= chunk,
            ;
            let lo = i as int * chunk as int;
            let hi = (i + 1) * chunk as int;
            assert(0 <= lo <= hi <= ctx.prec@.len());
            let sub = ctx.prec@.subrange(lo, hi);
            assert forall|m: int| 0 <= m < chunk implies entries@[m] == sub[m] by {
                assert(sub[m] == ctx.prec@[lo + m]);
                assert(entries@[m] == ctx.prec@[i * chunk + m]);
            }
            assert(entries@ =~= sub);
        }
        partitions.push(ContextPartition { entries });
        i += 1;
    }
    let rest = ContextRest { blind: ctx.blind, initial: ctx.initial };
    Ok(TranslatedContext { partitions, rest })
}

/// The table entries of a sequence of partitions, concatenated in binding
/// order.
pub open spec fn concat_entries(parts: Seq<ContextPartition>) -> Seq<secp256k1_ge_storage>
    decreases parts.len(),
{
    if parts.len() == 0 {
        Seq::empty()
    } else {
        concat_entries(parts.drop_last()) + parts.last().entries@
    }
}

proof fn lemma_concat_entries_prefix(
    ctx: secp256k1_ecmult_gen_context,
    max_buffer_size: int,
    t: TranslatedContext,
    k: int,
)
    requires
        ctx.table_well_shaped(),
        translation_ok(ctx, max_buffer_size, t),
        0 <= k <= chosen_partition_count(max_buffer_size),
    ensures
        concat_entries(t.partitions@.take(k)) == ctx.prec@.subrange(
            0,
            k * chosen_chunk_size(max_buffer_size),
        ),
    decreases k,
{
    let chunk = chosen_chunk_size(max_buffer_size);
    let p = chosen_partition_count(max_buffer_size);
    if k == 0 {
        assert(concat_entries(t.partitions@.take(0)) =~= ctx.prec@.subrange(0, 0));
    } else {
        lemma_concat_entries_prefix(ctx, max_buffer_size, t, k - 1);
        assert(0 <= (k - 1) * chunk && k * chunk == (k - 1) * chunk + chunk && k * chunk <= p
            * chunk && p * chunk == chunk * p) by (nonlinear_arith)
            requires
                0 < k <= p,
                0 <= chunk,
        ;
        let taken = t.partitions@.take(k);
        assert(taken.drop_last() =~= t.partitions@.take(k - 1));
        assert(taken.last() == t.partitions@[k - 1]);
        assert(concat_entries(taken) == concat_entries(t.partitions@.take(k - 1))
            + t.partitions@[k - 1].entries@);
        assert(ctx.prec@.subrange(0, (k - 1) * chunk) + ctx.prec@.subrange(
            (k - 1) * chunk,
            k * chunk,
        ) =~= ctx.prec@.subrange(0, k * chunk));
    }
}

/// Law: concatenating all partitions of a successful translation in binding
/// order reconstructs the original table exactly, entry for entry.
pub proof fn lemma_partitions_reconstruct_table(
    ctx: secp256k1_ecmult_gen_context,
    max_buffer_size: int,
    t: TranslatedContext,
)
    requires
        ctx.table_well_shaped(),
        translation_ok(ctx, max_buffer_size, t),
    ensures
        concat_entries(t.partitions@) == ctx.prec@,
{
    let chunk = chosen_chunk_size(max_buffer_size);
    let p = chosen_partition_count(max_buffer_size);
    lemma_concat_entries_prefix(ctx, max_buffer_size, t, p);
    assert(p * chunk == chunk * p) by (nonlinear_arith);
    assert(t.partitions@.take(p) =~= t.partitions@);
    assert(ctx.prec@.subrange(0, p * chunk) =~= ctx.prec@);
}

/// The 32-bit words of the rest structure as the kernel's rest binding sees
/// them: the blinding scalar's eight limbs, then the initial point's three
/// field elements of ten limbs each, then one word for the infinity flag
/// (normalized to 0 or 1).
pub open spec fn rest_words_spec(rest: ContextRest) -> Seq<u32> {
    rest.blind.d@ + rest.initial.x.n@ + rest.initial.y.n@ + rest.initial.z.n@ + seq![
        if rest.initial.infinity != 0 {
            1u32
        } else {
            0u32
        },
    ]
}

fn push_limbs<const N: usize>(out: &mut Vec<u32>, limbs: &[u32; N])
    ensures
        final(out)@ == old(out)@ + limbs@,
{
    let ghost base = out@;
    let mut k: usize = 0;
    while k < N
        invariant
            k <= N,
            out@ == base + limbs@.take(k as int),
        decreases N - k,
    {
        out.push(limbs[k]);
        proof {
            assert(limbs@.take(k + 1) =~= limbs@.take(k as int).push(limbs@[k as int]));
        }
        k += 1;
    }
    proof {
        assert(limbs@.take(N as int) =~= limbs@);
    }
}

/// The exact word image of the rest structure as it is uploaded, once, into
/// its uniform buffer.
pub fn rest_words(rest: &ContextRest) -> (r: Vec<u32>)
    ensures
        r@ == rest_words_spec(*rest),
        r@.len() == 39,
{
    let mut out: Vec<u32> = Vec::new();
    push_limbs(&mut out, &rest.blind.d);
    push_limbs(&mut out, &rest.initial.x.n);
    push_limbs(&mut out, &rest.initial.y.n);
    push_limbs(&mut out, &rest.initial.z.n);
    let flag: u32 = if rest.initial.infinity != 0 {
        1
    } else {
        0
    };
    out.push(flag);
    proof {
        assert(out@ =~= rest_words_spec(*rest));
    }
    out
}

/// Law: whatever partition count a successful translation chose, it divides
/// the 64 table rows evenly (so partition boundaries align to whole rows) and
/// every partition's byte size stays within the device's buffer limit.
pub proof fn lemma_partition_sizes(
    ctx: secp256k1_ecmult_gen_context,
    max_buffer_size: int,
    t: TranslatedContext,
)
    requires
        ctx.table_well_shaped(),
        translation_ok(ctx, max_buffer_size, t),
    ensures
        t.partitions@.len() > 0,
        crate::TABLE_ROWS as int % t.partitions@.len() as int == 0,
        forall|i: int|
            0 <= i < t.partitions@.len() ==> (#[trigger] t.partitions@[i].entries@).len()
                * ENTRY_BYTES as int <= max_buffer_size,
{
    let chunk = chosen_chunk_size(max_buffer_size);
    let p = chosen_partition_count(max_buffer_size);
    assert(p * chunk == crate::TABLE_ENTRIES as int);
    assert forall|i: int|
        0 <= i < t.partitions@.len() implies (#[trigger] t.partitions@[i].entries@).len()
        * ENTRY_BYTES as int <= max_buffer_size by {
        assert(0 <= i * chunk && (i + 1) * chunk == i * chunk + chunk && (i + 1) * chunk <= p
            * chunk) by (nonlinear_arith)
            requires
                0 <= i < p,
                0 <= chunk,
        ;
        assert(t.partitions@[i].entries@.len() == chunk);
    }
}

/// Law: translation is a function of the context and the buffer limit alone.
/// Two successful translations of the same context for the same limit agree
/// partition for partition, word for word, and in their rest structures.
pub proof fn lemma_translation_idempotent(
    ctx: secp256k1_ecmult_gen_context,
    max_buffer_size: int,
    t1: TranslatedContext,
    t2: TranslatedContext,
)
    requires
        translation_ok(ctx, max_buffer_size, t1),
        translation_ok(ctx, max_buffer_size, t2),
    ensures
        t1.partitions@.len() == t2.partitions@.len(),
        forall|i: int|
            0 <= i < t1.partitions@.len() ==> (#[trigger] t1.partitions@[i].entries@)
                == t2.partitions@[i].entries@,
        t1.rest.blind == t2.rest.blind,
        t1.rest.initial == t2.rest.initial,
{
}

/// Reads a translated context back: the partitions' entries, concatenated in
/// binding order.
pub fn concat_partitions(t: &TranslatedContext) -> (r: Vec<secp256k1_ge_storage>)
    ensures
        r@ == concat_entries(t.partitions@),
{
    let mut out: Vec<secp256k1_ge_storage> = Vec::new();
    let mut i: usize = 0;
    while i < t.partitions.len()
        invariant
            i <= t.partitions@.len(),
            out@ == concat_entries(t.partitions@.take(i as int)),
        decreases t.partitions@.len() - i,
    {
        let part = &t.partitions[i];
        let ghost base = out@;
        let mut j: usize = 0;
        while j < part.entries.len()
            invariant
                j <= part.entries@.len(),
                part == t.partitions@[i as int],
                out@ == base + part.entries@.take(j as int),
            decreases part.entries@.len() - j,
        {
            out.push(part.entries[j]);
            proof {
                assert(part.entries@.take(j + 1) =~= part.entries@.take(j as int).push(
                    part.entries@[j as int],
                ));
            }
            j += 1;
        }
        proof {
            let taken = t.partitions@.take(i + 1);
            assert(taken.drop_last() =~= t.partitions@.take(i as int));
            assert(part.entries@.take(part.entries@.len() as int) =~= part.entries@);
            assert(out@ == concat_entries(taken));
        }
        i += 1;
    }
    proof {
        assert(t.partitions@.take(t.partitions@.len() as int) =~= t.partitions@);
    }
    out
}

/// The 32-bit words of a run of table entries, in entry order: for each entry
/// the eight `x` limbs then the eight `y` limbs, with no padding between
/// entries. This fixed-stride layout is the uniform-buffer protocol contract
/// between host and kernel.
pub open spec fn entries_words(s: Seq<secp256k1_ge_storage>) -> Seq<u32>
    decreases s.len(),
{
    if s.len() == 0 {
        Seq::empty()
    } else {
        entries_words(s.drop_last()) + s.last().words()
    }
}

pub proof fn lemma_entries_words_len(s: Seq<secp256k1_ge_storage>)
    ensures
        entries_words(s).len() == s.len() * ENTRY_WORDS,
    decreases s.len(),
{
    if s.len() > 0 {
        lemma_entries_words_len(s.drop_last());
    }
}

/// The exact word image of one partition as it is uploaded into a device's
/// uniform buffer.
pub fn partition_words(p: &ContextPartition) -> (r: Vec<u32>)
    ensures
        r@ == entries_words(p.entries@),
        r@.len() == p.entries@.len() * ENTRY_WORDS,
{
    let mut out: Vec<u32> = Vec::new();
    let mut i: usize = 0;
    while i < p.entries.len()
        invariant
            i <= p.entries@.len(),
            out@ == entries_words(p.entries@.take(i as int)),
        decreases p.entries@.len() - i,
    {
        let e = &p.entries[i];
        let ghost base = out@;
        let mut k: usize = 0;
        while k < 8
            invariant
                k <= 8,
                e == p.entries@[i as int],
                out@ == base + e.x@.take(k as int),
            decreases 8 - k,
        {
            out.push(e.x.n[k]);
            proof {
                assert(e.x@.take(k + 1) =~= e.x@.take(k as int).push(e.x.n@[k as int]));
            }
            k += 1;
        }
        let ghost mid = out@;
        proof {
            assert(e.x@.take(8) =~= e.x@);
        }
        let mut k: usize = 0;
        while k < 8
            invariant
                k <= 8,
                e == p.entries@[i as int],
                out@ == mid + e.y@.take(k as int),
                mid == base + e.x@,
            decreases 8 - k,
        {
            out.push(e.y.n[k]);
            proof {
                assert(e.y@.take(k + 1) =~= e.y@.take(k as int).push(e.y.n@[k as int]));
            }
            k += 1;
        }
        proof {
            let taken = p.entries@.take(i + 1);
            assert(taken.drop_last() =~= p.entries@.take(i as int));
            assert(e.y@.take(8) =~= e.y@);
            assert(out@ =~= entries_words(taken.drop_last()) + taken.last().words());
        }
        i += 1;
    }
    proof {
        assert(p.entries@.take(p.entries@.len() as int) =~= p.entries@);
        lemma_entries_words_len(p.entries@);
    }
    out
}

} // verus!


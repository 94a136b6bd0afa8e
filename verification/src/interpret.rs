//! Result Interpreter: reads back per-invocation output records, classifies
//! the success flag, and, in verification mode, cross-checks the device's
//! results against the native library.

use vstd::prelude::*;

use crate::encoding::decoded_bytes;
use crate::errors::DeviceError;
use crate::native::native_derive_public_key;
use crate::native::native_public_key;
use crate::native::native_secret_key_accepts;
use crate::validity::is_valid_secret;
use crate::validity::is_valid_secret_key;

verus! {

/// 32-bit words in one output record: a success flag, the candidate's eight
/// limbs, and the derived public key's sixteen limbs, tightly packed.
pub const RECORD_WORDS: usize = 25;

/// One GPU kernel invocation's result, populated exactly once by the kernel.
pub struct InvocationRecord {
    pub success: u32,
    pub secret_key: [u32; 8],
    pub public_key: [u32; 16],
}

/// How a record sits in the output buffer: record `i` occupies words
/// `i * 25 .. (i + 1) * 25`, flag first, then the secret key, then the
/// public key.
pub open spec fn record_matches_words(words: Seq<u32>, i: int, rec: InvocationRecord) -> bool {
    &&& rec.success == words[i * RECORD_WORDS as int]
    &&& forall|k: int|
        0 <= k < 8 ==> #[trigger] rec.secret_key@[k] == words[i * RECORD_WORDS as int + 1 + k]
    &&& forall|k: int|
        0 <= k < 16 ==> #[trigger] rec.public_key@[k] == words[i * RECORD_WORDS as int + 9 + k]
}

/// Parses a read-back output buffer into records, in invocation order.
pub fn parse_records(words: &Vec<u32>) -> (r: Vec<InvocationRecord>)
    requires
        words@.len() as int % RECORD_WORDS as int == 0,
    ensures
        r@.len() == words@.len() as int / RECORD_WORDS as int,
        forall|i: int| 0 <= i < r@.len() ==> record_matches_words(words@, i, #[trigger] r@[i]),
{
    let count = words.len() / RECORD_WORDS;
    let mut records: Vec<InvocationRecord> = Vec::new();
    let mut i: usize = 0;
    while i < count
        invariant
            i <= count,
            count == words@.len() as int / RECORD_WORDS as int,
            words@.len() == count * RECORD_WORDS,
            records@.len() == i,
            forall|m: int|
                0 <= m < i ==> record_matches_words(words@, m, #[trigger] records@[m]),
        decreases count - i,
    {
        proof {
            assert(i * RECORD_WORDS + RECORD_WORDS <= count * RECORD_WORDS && 0 <= i
                * RECORD_WORDS) by (nonlinear_arith)
                requires
                    0 <= i < count,
            ;
            assert(words.len() == words@.len());
        }
        let base = i * RECORD_WORDS;
        let success = words[base];
        let secret_key: [u32; 8] = [words[base + 1], words[base + 2], words[base + 3], words[base
            + 4], words[base + 5], words[base + 6], words[base + 7], words[base + 8]];
        let public_key: [u32; 16] = [words[base + 9], words[base + 10], words[base + 11],
            words[base + 12], words[base + 13], words[base + 14], words[base + 15], words[base
            + 16], words[base + 17], words[base + 18], words[base + 19], words[base + 20],
            words[base + 21], words[base + 22], words[base + 23], words[base + 24]];
        records.push(InvocationRecord { success, secret_key, public_key });
        i += 1;
    }
    records
}

/// Interprets what a device handed back after one dispatch of `invocations`
/// invocations. An output buffer of the wrong size is a device fault, never
/// partially trusted; a well-sized one parses into exactly one record per
/// invocation.
pub fn interpret_output(invocations: usize, output_words: &Vec<u32>) -> (r: Result<
    Vec<InvocationRecord>,
    DeviceError,
>)
    requires
        invocations as int * RECORD_WORDS as int <= usize::MAX as int,
    ensures
        match r {
            Ok(recs) => {
                &&& output_words@.len() == invocations as int * RECORD_WORDS as int
                &&& recs@.len() == invocations
                &&& forall|i: int|
                    0 <= i < recs@.len() ==> record_matches_words(
                        output_words@,
                        i,
                        #[trigger] recs@[i],
                    )
            },
            Err(e) => e is OutputShapeMismatch && output_words@.len() != invocations as int
                * RECORD_WORDS as int,
        },
{
    let expected = invocations * RECORD_WORDS;
    if output_words.len() != expected {
        return Err(DeviceError::OutputShapeMismatch);
    }
    let records = parse_records(output_words);
    proof {
        assert(output_words@.len() as int / RECORD_WORDS as int == invocations as int)
            by (nonlinear_arith)
            requires
                output_words@.len() == invocations as int * RECORD_WORDS as int,
                RECORD_WORDS as int == 25,
        ;
    }
    Ok(records)
}

/// Classifies each record's success flag: nonzero means the invocation found
/// a valid private key.
pub fn classify_records(records: &Vec<InvocationRecord>) -> (r: Vec<bool>)
    ensures
        r@.len() == records@.len(),
        forall|i: int| 0 <= i < records@.len() ==> r@[i] == (records@[i].success != 0),
{
    let mut flags: Vec<bool> = Vec::new();
    let mut i: usize = 0;
    while i < records.len()
        invariant
            i <= records@.len(),
            flags@.len() == i,
            forall|m: int| 0 <= m < i ==> flags@[m] == (records@[m].success != 0),
        decreases records@.len() - i,
    {
        flags.push(records[i].success != 0);
        i += 1;
    }
    flags
}

/// Verification mode: the validity decision computed by this crate and the
/// native library's own accept/reject decision, for one candidate. The two
/// always agree; a run-time disagreement would mean the native library does
/// not behave as assumed.
pub fn validity_cross_check(bytes: &Vec<u8>) -> (r: (bool, bool))
    requires
        bytes@.len() == 32,
    ensures
        r.0 == is_valid_secret(bytes@),
        r.1 == is_valid_secret(bytes@),
{
    (is_valid_secret_key(bytes), native_secret_key_accepts(bytes))
}

/// The public key bytes a record claims, as the kernel's limbs decoded back
/// to big-endian: x coordinate then y coordinate, 32 bytes each.
pub open spec fn record_public_key_spec(rec: InvocationRecord) -> Seq<u8> {
    decoded_bytes(rec.public_key@.subrange(0, 8)) + decoded_bytes(rec.public_key@.subrange(8, 16))
}

/// Decodes the public key limbs of one record into 64 big-endian bytes.
pub fn record_public_key_bytes(rec: &InvocationRecord) -> (r: Vec<u8>)
    ensures
        r@ == record_public_key_spec(*rec),
        r@.len() == 64,
{
    let mut xl: Vec<u32> = Vec::new();
    let mut k: usize = 0;
    while k < 8
        invariant
            k <= 8,
            xl@.len() == k,
            forall|m: int| 0 <= m < k ==> xl@[m] == rec.public_key@[m],
        decreases 8 - k,
    {
        xl.push(rec.public_key[k]);
        k += 1;
    }
    let mut yl: Vec<u32> = Vec::new();
    let mut k: usize = 8;
    while k < 16
        invariant
            8 <= k <= 16,
            yl@.len() == k - 8,
            forall|m: int| 0 <= m < k - 8 ==> yl@[m] == rec.public_key@[m + 8],
        decreases 16 - k,
    {
        yl.push(rec.public_key[k]);
        k += 1;
    }
    proof {
        assert(xl@ =~= rec.public_key@.subrange(0, 8));
        assert(yl@ =~= rec.public_key@.subrange(8, 16));
    }
    let mut bytes = crate::encoding::decode_scalar(&xl);
    let mut ybytes = crate::encoding::decode_scalar(&yl);
    bytes.append(&mut ybytes);
    bytes
}

/// Compares a record's claimed public key with a native 65-byte uncompressed
/// serialization: true exactly when the record's 64 coordinate bytes equal
/// the serialization after its leading format byte.
pub fn record_matches_native(rec: &InvocationRecord, native_uncompressed: &Vec<u8>) -> (r: bool)
    requires
        native_uncompressed@.len() == 65,
    ensures
        r == (record_public_key_spec(*rec) == native_uncompressed@.skip(1)),
{
    let bytes = record_public_key_bytes(rec);
    let mut i: usize = 0;
    while i < 64
        invariant
            i <= 64,
            bytes@.len() == 64,
            native_uncompressed@.len() == 65,
            bytes@ == record_public_key_spec(*rec),
            forall|m: int| 0 <= m < i ==> bytes@[m] == native_uncompressed@[m + 1],
        decreases 64 - i,
    {
        if bytes[i] != native_uncompressed[i + 1] {
            proof {
                assert(native_uncompressed@.skip(1)[i as int] == native_uncompressed@[i as int
                    + 1]);
            }
            return false;
        }
        i += 1;
    }
    proof {
        assert(bytes@ =~= native_uncompressed@.skip(1));
    }
    true
}

/// Verification mode for one record: derives the public key natively from the
/// record's candidate bytes and compares. `None` exactly when the candidate
/// is not a valid secret key (the native library then derives nothing);
/// `Some(agrees)` says whether the record's key equals the native derivation.
pub fn cross_check_record(rec: &InvocationRecord, secret: &Vec<u8>) -> (r: Option<bool>)
    requires
        secret@.len() == 32,
    ensures
        r is Some <==> is_valid_secret(secret@),
        r matches Some(m) ==> m == (record_public_key_spec(*rec) == native_public_key(
            secret@,
        ).skip(1)),
{
    match native_derive_public_key(secret) {
        Some(native) => Some(record_matches_native(rec, &native)),
        None => None,
    }
}

} // verus!

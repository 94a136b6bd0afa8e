use std::sync::Arc;

use gpu_ecmult::encoding::encode_scalar;
use gpu_ecmult::errors::DeviceError;
use gpu_ecmult::interpret::classify_records;
use gpu_ecmult::interpret::cross_check_record;
use gpu_ecmult::interpret::interpret_output;
use gpu_ecmult::interpret::parse_records;
use gpu_ecmult::interpret::InvocationRecord;
use gpu_ecmult::layout::translate_context;
use gpu_ecmult::layout::TranslatedContext;
use gpu_ecmult::session::generate_candidates;
use gpu_ecmult::session::DeviceSession;
use gpu_ecmult::session::Orchestrator;
use gpu_ecmult::table::secp256k1_ecmult_gen_context;
use gpu_ecmult::table::secp256k1_fe;
use gpu_ecmult::table::secp256k1_fe_storage;
use gpu_ecmult::table::secp256k1_ge_storage;
use gpu_ecmult::table::secp256k1_gej;
use gpu_ecmult::table::secp256k1_scalar;
use gpu_ecmult::TABLE_ENTRIES;

fn shared_context() -> Arc<TranslatedContext> {
    let mut prec = Vec::new();
    for i in 0..TABLE_ENTRIES {
        let limb = i as u32;
        prec.push(secp256k1_ge_storage {
            x: secp256k1_fe_storage { n: [limb; 8] },
            y: secp256k1_fe_storage { n: [limb + 1; 8] },
        });
    }
    let ctx = secp256k1_ecmult_gen_context {
        prec,
        blind: secp256k1_scalar { d: [0; 8] },
        initial: secp256k1_gej {
            x: secp256k1_fe { n: [0; 10] },
            y: secp256k1_fe { n: [0; 10] },
            z: secp256k1_fe { n: [0; 10] },
            infinity: 1,
        },
    };
    Arc::new(translate_context(&ctx, 16384).expect("translation succeeds"))
}

fn candidate_batch(count: usize) -> Vec<u8> {
    let mut batch = Vec::new();
    for c in 0..count {
        for b in 0..32 {
            batch.push((c * 32 + b) as u8);
        }
    }
    batch
}

#[test]
fn plan_batch_encodes_within_the_bound() {
    let session = DeviceSession::new(0, 2, shared_context());
    let batch = candidate_batch(2);
    let plan = session.plan_batch(&batch).expect("two candidates fit");
    assert_eq!(plan.invocations, 2);
    assert_eq!(plan.input_words.len(), 16);
    assert_eq!(plan.output_word_count, 50);
    let first = encode_scalar(&batch[0..32].to_vec());
    let second = encode_scalar(&batch[32..64].to_vec());
    assert_eq!(&plan.input_words[0..8], first.as_slice());
    assert_eq!(&plan.input_words[8..16], second.as_slice());
}

#[test]
fn oversized_batch_is_reported_not_truncated() {
    let session = DeviceSession::new(0, 2, shared_context());
    let batch = candidate_batch(3);
    let err = match session.plan_batch(&batch) {
        Err(e) => e,
        Ok(_) => panic!("three candidates do not fit"),
    };
    assert_eq!(err.requested, 3);
    assert_eq!(err.limit, 2);
}

#[test]
fn generated_candidates_have_batch_shape() {
    let batch = generate_candidates(5);
    assert_eq!(batch.len(), 160);
    let session = DeviceSession::new(0, 128, shared_context());
    let plan = session.plan_batch(&batch).expect("five candidates fit");
    assert_eq!(plan.invocations, 5);
}

#[test]
fn creation_failure_excludes_only_that_device() {
    let ctx = shared_context();
    let mut pool = Orchestrator::new();
    pool.register_device(DeviceSession::new(0, 128, ctx.clone()), Ok(()))
        .expect("device 0 registers");
    let refused = pool.register_device(
        DeviceSession::new(1, 128, ctx.clone()),
        Err(DeviceError::PipelineCreation),
    );
    assert!(matches!(refused, Err(DeviceError::PipelineCreation)));
    pool.register_device(DeviceSession::new(2, 128, ctx.clone()), Ok(()))
        .expect("device 2 registers");
    assert_eq!(pool.active_count(), 2);

    // The surviving sessions still plan batches, and exactly as they would
    // have with the failed device present.
    let batch = candidate_batch(2);
    let plans: Vec<Vec<u32>> = pool
        .sessions
        .iter()
        .map(|s| s.plan_batch(&batch).expect("batch fits").input_words)
        .collect();
    let reference = DeviceSession::new(9, 128, ctx.clone())
        .plan_batch(&batch)
        .expect("batch fits")
        .input_words;
    for plan in plans {
        assert_eq!(plan, reference);
    }

    // And each surviving session's round still completes with correct,
    // fully populated records.
    for session in &pool.sessions {
        let plan = session.plan_batch(&batch).expect("batch fits");
        let mut output = Vec::new();
        for c in 0..plan.invocations as u32 {
            output.extend(record_words(c, c * 1000));
        }
        let records = interpret_output(plan.invocations, &output).expect("well-sized output");
        assert_eq!(records.len(), 2);
        assert_eq!(records[0].success, 0);
        assert_eq!(records[1].success, 1);
        assert_eq!(records[1].secret_key[0], 1000);
        assert_eq!(records[1].public_key[15], 1023);
    }
}

#[test]
fn a_lost_or_timed_out_device_is_refused_registration() {
    let ctx = shared_context();
    let mut pool = Orchestrator::new();
    let lost = pool.register_device(
        DeviceSession::new(0, 128, ctx.clone()),
        Err(DeviceError::DeviceLost),
    );
    assert!(matches!(lost, Err(DeviceError::DeviceLost)));
    let timed_out = pool.register_device(
        DeviceSession::new(1, 128, ctx.clone()),
        Err(DeviceError::DispatchTimeout),
    );
    assert!(matches!(timed_out, Err(DeviceError::DispatchTimeout)));
    assert_eq!(pool.active_count(), 0);
}

#[test]
fn excluding_a_lost_device_keeps_the_rest_in_order() {
    let ctx = shared_context();
    let mut pool = Orchestrator::new();
    for index in 0..3 {
        pool.register_device(DeviceSession::new(index, 128, ctx.clone()), Ok(()))
            .expect("device registers");
    }
    pool.exclude_device(1);
    assert_eq!(pool.active_count(), 2);
    assert_eq!(pool.sessions[0].device_index, 0);
    assert_eq!(pool.sessions[1].device_index, 2);
    let batch = candidate_batch(1);
    for session in &pool.sessions {
        assert!(session.plan_batch(&batch).is_ok());
    }
}

fn record_words(success: u32, seed: u32) -> Vec<u32> {
    let mut words = vec![success];
    for k in 0..24 {
        words.push(seed + k);
    }
    words
}

#[test]
fn records_parse_field_by_field() {
    let mut words = record_words(1, 100);
    words.extend(record_words(0, 200));
    let records = parse_records(&words);
    assert_eq!(records.len(), 2);
    assert_eq!(records[0].success, 1);
    assert_eq!(records[0].secret_key, [100, 101, 102, 103, 104, 105, 106, 107]);
    assert_eq!(records[0].public_key[0], 108);
    assert_eq!(records[0].public_key[15], 123);
    assert_eq!(records[1].success, 0);
    assert_eq!(records[1].secret_key[0], 200);

    let flags = classify_records(&records);
    assert_eq!(flags, vec![true, false]);
}

#[test]
fn misshapen_output_is_a_device_fault() {
    let words = record_words(1, 100);
    match interpret_output(2, &words) {
        Err(DeviceError::OutputShapeMismatch) => {}
        _ => panic!("one record for two invocations must be refused"),
    }
    let records = interpret_output(1, &words).expect("one record for one invocation");
    assert_eq!(records.len(), 1);
}

#[test]
fn record_cross_check_against_native_derivation() {
    // The secret 0x...01 is valid; derive its public key natively and build a
    // record claiming exactly that key.
    let mut secret = vec![0u8; 32];
    secret[31] = 1;
    let array: [u8; 32] = secret.as_slice().try_into().unwrap();
    let sk = secp256k1::SecretKey::from_secret_bytes(array).expect("valid secret");
    let native = secp256k1::PublicKey::from_secret_key(&sk).serialize_uncompressed();

    let x_limbs = encode_scalar(&native[1..33].to_vec());
    let y_limbs = encode_scalar(&native[33..65].to_vec());
    let mut public_key = [0u32; 16];
    public_key[..8].copy_from_slice(&x_limbs);
    public_key[8..].copy_from_slice(&y_limbs);
    let record = InvocationRecord {
        success: 1,
        secret_key: [0, 0, 0, 0, 0, 0, 0, 1],
        public_key,
    };
    assert_eq!(cross_check_record(&record, &secret), Some(true));

    // A record claiming a different key disagrees.
    let mut wrong = InvocationRecord {
        success: 1,
        secret_key: record.secret_key,
        public_key,
    };
    wrong.public_key[3] ^= 1;
    assert_eq!(cross_check_record(&wrong, &secret), Some(false));

    // An invalid candidate has no native derivation to compare with.
    let zero = vec![0u8; 32];
    assert_eq!(cross_check_record(&record, &zero), None);
}

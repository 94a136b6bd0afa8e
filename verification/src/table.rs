//! Mirrors of the native library's internal context structures, held as plain
//! limb arrays so that the layout logic can be reasoned about word by word.
//!
//! The native context is consumed through a fixed, version-pinned byte layout:
//! every structure here is a raw limb copy of its native counterpart, with no
//! mathematical transformation applied at translation time.

use vstd::prelude::*;

verus! {

/// A value in the curve's base field in the unnormalized working form:
/// ten sub-32-bit limbs.
#[allow(non_camel_case_types)]
#[derive(Clone, Copy)]
pub struct secp256k1_fe {
    pub n: [u32; 10],
}

/// A compact field element: eight 32-bit limbs, bit-exact mirror of the
/// native library's storage encoding. Used only for precomputed,
/// already-normalized values.
#[allow(non_camel_case_types)]
#[derive(Clone, Copy)]
pub struct secp256k1_fe_storage {
    pub n: [u32; 8],
}

/// A curve point in affine coordinates. `infinity != 0` means `x` and `y`
/// carry no meaning.
#[allow(non_camel_case_types)]
#[derive(Clone, Copy)]
pub struct secp256k1_ge {
    pub x: secp256k1_fe,
    pub y: secp256k1_fe,
    pub infinity: i32,
}

/// A curve point in Jacobian (projective) coordinates. Both `infinity != 0`
/// and `z == 0` denote the point at infinity.
#[allow(non_camel_case_types)]
#[derive(Clone, Copy)]
pub struct secp256k1_gej {
    pub x: secp256k1_fe,
    pub y: secp256k1_fe,
    pub z: secp256k1_fe,
    pub infinity: i32,
}

/// A compact curve point as stored inside the precomputed table. Table
/// entries are never the point at infinity, so no flag is carried.
#[allow(non_camel_case_types)]
#[derive(Clone, Copy)]
pub struct secp256k1_ge_storage {
    pub x: secp256k1_fe_storage,
    pub y: secp256k1_fe_storage,
}

/// A 256-bit exponent: eight 32-bit limbs in the native library's internal
/// packing (limb 0 least significant). The translation layer does not
/// validate its range.
#[allow(non_camel_case_types)]
#[derive(Clone, Copy)]
pub struct secp256k1_scalar {
    pub d: [u32; 8],
}

/// The precomputed-multiplication context used for verification: odd
/// multiples of the generator, kept as one flat row-major sequence.
#[allow(non_camel_case_types)]
pub struct secp256k1_ecmult_context {
    pub pre_g: Vec<secp256k1_ge_storage>,
}

/// The generator-multiplication context: the 64x16 precomputed table (kept
/// row-major as one flat sequence of 1024 entries), a blinding scalar, and an
/// initial projective point.
#[allow(non_camel_case_types)]
pub struct secp256k1_ecmult_gen_context {
    pub prec: Vec<secp256k1_ge_storage>,
    pub blind: secp256k1_scalar,
    pub initial: secp256k1_gej,
}

impl View for secp256k1_fe_storage {
    type V = Seq<u32>;

    open spec fn view(&self) -> Seq<u32> {
        self.n@
    }
}

impl secp256k1_ge_storage {
    /// The sixteen 32-bit words of one table entry, `x` limbs then `y` limbs.
    pub open spec fn words(self) -> Seq<u32> {
        self.x@ + self.y@
    }
}

impl secp256k1_ecmult_gen_context {
    /// The table has its protocol-fixed shape: 64 rows of 16 entries.
    pub open spec fn table_well_shaped(self) -> bool {
        self.prec@.len() == crate::TABLE_ENTRIES
    }
}

} // verus!

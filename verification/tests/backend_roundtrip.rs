//! Round trips through the STARK proving backend: the library builds the
//! witness, the backend proves it, and verification accepts the correct
//! public input and rejects a tampered one.

use p3_air::{Air, AirBuilder, BaseAir, WindowAccess};
use p3_baby_bear::{BabyBear, Poseidon2BabyBear};
use p3_challenger::DuplexChallenger;
use p3_commit::ExtensionMmcs;
use p3_dft::Radix2DitParallel;
use p3_field::extension::BinomialExtensionField;
use p3_field::{Field, PrimeCharacteristicRing};
use p3_fri::{FriParameters, TwoAdicFriPcs};
use p3_matrix::dense::RowMajorMatrix;
use p3_merkle_tree::MerkleTreeMmcs;
use p3_symmetric::{PaddingFreeSponge, TruncatedPermutation};
use p3_uni_stark::{prove, verify, StarkConfig};
use rand::rngs::SmallRng;
use rand::SeedableRng;

use arith_air::num2bits::num2bits_witness;
use arith_air::simple_add::add_witness;
use arith_air::simple_mul::mul_witness;
use arith_air::trace::{PublicInputs, Trace};

type Val = BabyBear;
type Perm = Poseidon2BabyBear<16>;
type MyHash = PaddingFreeSponge<Perm, 16, 8, 8>;
type MyCompress = TruncatedPermutation<Perm, 2, 8, 16>;
type ValMmcs =
    MerkleTreeMmcs<<Val as Field>::Packing, <Val as Field>::Packing, MyHash, MyCompress, 2, 8>;
type Challenge = BinomialExtensionField<Val, 4>;
type ChallengeMmcs = ExtensionMmcs<Val, Challenge, ValMmcs>;
type Challenger = DuplexChallenger<Val, Perm, 16, 8>;
type Dft = Radix2DitParallel<Val>;
type Pcs = TwoAdicFriPcs<Val, Dft, ValMmcs, ChallengeMmcs>;
type MyConfig = StarkConfig<Pcs, Challenge, Challenger>;

fn make_config() -> MyConfig {
    let mut rng = SmallRng::seed_from_u64(1);
    let perm = Perm::new_from_rng_128(&mut rng);
    let hash = MyHash::new(perm.clone());
    let compress = MyCompress::new(perm.clone());
    let val_mmcs = ValMmcs::new(hash, compress, 0);
    let challenge_mmcs = ChallengeMmcs::new(val_mmcs.clone());
    let dft = Dft::default();
    let fri_params = FriParameters::new_testing(challenge_mmcs, 0);
    let pcs = Pcs::new(dft, val_mmcs, fri_params);
    let challenger = Challenger::new(perm);
    MyConfig::new(pcs, challenger)
}

fn to_matrix(t: &Trace) -> RowMajorMatrix<Val> {
    let mut values = Vec::with_capacity(t.height() * 3);
    for i in 0..t.height() {
        let r = t.row(i);
        values.push(Val::from_u64(r.c0.as_canonical_u64()));
        values.push(Val::from_u64(r.c1.as_canonical_u64()));
        values.push(Val::from_u64(r.c2.as_canonical_u64()));
    }
    RowMajorMatrix::new(values, 3)
}

fn to_vals(pis: &PublicInputs) -> Vec<Val> {
    let mut out = Vec::with_capacity(pis.len());
    for i in 0..pis.len() {
        out.push(Val::from_u64(pis.get(i).as_canonical_u64()));
    }
    out
}

/// Backend-side rendering of the bit-decomposition AIR, mirroring the
/// verified constraint rule in `arith_air::num2bits`.
struct BackendN2bAir;

impl<F> BaseAir<F> for BackendN2bAir {
    fn width(&self) -> usize {
        3
    }

    fn num_public_values(&self) -> usize {
        1
    }
}

impl<AB: AirBuilder> Air<AB> for BackendN2bAir {
    fn eval(&self, builder: &mut AB) {
        let main = builder.main();
        let now = main.current_slice().to_vec();
        let nxt = main.next_slice().to_vec();
        let a_pub = builder.public_values()[0];

        builder.when_first_row().assert_eq(now[0], a_pub);
        builder
            .when_transition()
            .assert_eq(nxt[0] * AB::Expr::from_u64(2) + now[2], now[0]);
        builder.when_transition().assert_eq(nxt[0], now[1]);
        builder.when_last_row().assert_zero(now[0]);
        builder.when_last_row().assert_zero(now[1]);
        builder.when_last_row().assert_zero(now[2]);
    }
}

/// Backend-side rendering of the addition AIR, mirroring the verified
/// constraint rule in `arith_air::simple_add`.
struct BackendAddAir;

impl<F> BaseAir<F> for BackendAddAir {
    fn width(&self) -> usize {
        3
    }

    fn num_public_values(&self) -> usize {
        1
    }
}

impl<AB: AirBuilder> Air<AB> for BackendAddAir {
    fn eval(&self, builder: &mut AB) {
        let main = builder.main();
        let now = main.current_slice().to_vec();
        let c_pub = builder.public_values()[0];

        builder.when_first_row().assert_eq(now[2], c_pub);
        builder.when_first_row().assert_eq(now[0] + now[1], now[2]);
    }
}

/// Backend-side rendering of the multiplication AIR, mirroring the verified
/// constraint rule in `arith_air::simple_mul`.
struct BackendMulAir;

impl<F> BaseAir<F> for BackendMulAir {
    fn width(&self) -> usize {
        3
    }

    fn num_public_values(&self) -> usize {
        1
    }
}

impl<AB: AirBuilder> Air<AB> for BackendMulAir {
    fn eval(&self, builder: &mut AB) {
        let main = builder.main();
        let now = main.current_slice().to_vec();
        let c_pub = builder.public_values()[0];

        builder.when_first_row().assert_eq(now[2], c_pub);
        builder.when_first_row().assert_eq(now[0] * now[1], now[2]);
    }
}

#[test]
fn n2b_prove_then_verify_succeeds() {
    for n in [0u64, 1, 19, 255] {
        let (t, pis) = num2bits_witness(n);
        let config = make_config();
        let proof = prove(&config, &BackendN2bAir, to_matrix(&t), &to_vals(&pis))
            .expect("proving a generated witness must succeed");
        verify(&config, &BackendN2bAir, &proof, &to_vals(&pis))
            .expect("verifying with the correct public input must succeed");
    }
}

#[test]
fn n2b_verify_rejects_tampered_public_input() {
    let n = 19u64;
    let (t, pis) = num2bits_witness(n);
    let config = make_config();
    let proof =
        prove(&config, &BackendN2bAir, to_matrix(&t), &to_vals(&pis)).expect("proving must succeed");
    for wrong in [0u64, 18, 20, 19 + 1024] {
        let bad_pis = vec![Val::from_u64(wrong)];
        assert!(verify(&config, &BackendN2bAir, &proof, &bad_pis).is_err());
    }
}

#[test]
fn add_prove_then_verify_succeeds() {
    let (t, pis) = add_witness(13, 55);
    let config = make_config();
    let proof =
        prove(&config, &BackendAddAir, to_matrix(&t), &to_vals(&pis)).expect("proving must succeed");
    verify(&config, &BackendAddAir, &proof, &to_vals(&pis))
        .expect("verifying the correct sum must succeed");
}

#[test]
fn add_verify_rejects_wrong_sum() {
    let (t, pis) = add_witness(13, 55);
    let config = make_config();
    let proof =
        prove(&config, &BackendAddAir, to_matrix(&t), &to_vals(&pis)).expect("proving must succeed");
    let bad_pis = vec![Val::from_u64(34)];
    assert!(verify(&config, &BackendAddAir, &proof, &bad_pis).is_err());
}

#[test]
fn mul_prove_then_verify_succeeds_13_55_715() {
    let (t, pis) = mul_witness(13, 55, 715);
    let config = make_config();
    let proof =
        prove(&config, &BackendMulAir, to_matrix(&t), &to_vals(&pis)).expect("proving must succeed");
    verify(&config, &BackendMulAir, &proof, &to_vals(&pis))
        .expect("verifying the correct product must succeed");
}

#[test]
fn mul_verify_rejects_714() {
    let (t, pis) = mul_witness(13, 55, 715);
    let config = make_config();
    let proof =
        prove(&config, &BackendMulAir, to_matrix(&t), &to_vals(&pis)).expect("proving must succeed");
    let bad_pis = vec![Val::from_u64(714)];
    assert!(verify(&config, &BackendMulAir, &proof, &bad_pis).is_err());
}

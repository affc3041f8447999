//! The verifier's polynomial-identity check.
//!
//! Given the opened values of a proof, the Fiat-Shamir challenges the
//! caller derived from its transcript, and the protocol configuration,
//! the verifier evaluates the vanishing polynomial at the challenge
//! point `zeta`, reconstructs the claimed quotient value from the
//! chunked quotient openings, and checks the identity
//! `vanishing(zeta) == Z_H(zeta) * quotient(zeta)` with
//! `Z_H(zeta) = zeta^(2^degree_bits) - 1`, for every challenge.
//! The low-degree test over the committed caps belongs to the outside
//! commitment subsystem; its verdict enters here as a plain value and
//! any mismatch anywhere is one hard rejection.

use vstd::prelude::*;
use crate::columns::NUM_BYTE_COLS;
use crate::field::{
    ExtElem, base_wf, ext_wf, spec_ext_sub, spec_ext_mul, spec_ext_add, spec_ext_pow2, ext_sub,
    ext_mul, ext_add, ext_zero, ext_one, ext_exp_power_of_2,
};
use crate::lookup::{Lookup, lookup_wf};
use crate::byte_stark::ByteStark;
use crate::vanishing_poly::{
    EvaluationFrame, ConstraintConsumer, LookupCheckVars, CtlCheckVars, ctl_wf, frame_wf,
    spec_fold_constraints, spec_vanishing_constraints, eval_vanishing_poly,
};

verus! {

/// The protocol configuration the verifier checks a proof against.
#[derive(Debug, Clone, Copy, PartialEq, Eq, Structural)]
pub struct StarkConfig {
    /// The log2 of the trace length.
    pub degree_bits: usize,
    /// How many quotient chunks one challenge contributes.
    pub quotient_degree_factor: usize,
    /// How many verifier challenges weight the constraints.
    pub num_challenges: usize,
    /// The declared number of public inputs.
    pub num_public_inputs: usize,
}

/// The opened polynomial values a proof carries.
#[derive(Debug, Clone, PartialEq, Eq)]
pub struct StarkOpenings {
    /// The trace columns opened at `zeta`.
    pub local_values: Vec<ExtElem>,
    /// The trace columns opened at `g * zeta`, the next row.
    pub next_values: Vec<ExtElem>,
    /// The lookup accumulator columns opened at `zeta`.
    pub lookup_zs: Vec<ExtElem>,
    /// The lookup accumulator columns opened at the next row.
    pub next_lookup_zs: Vec<ExtElem>,
    /// The chunked quotient polynomial openings.
    pub quotient_polys: Vec<ExtElem>,
}

/// A proof as the verifier sees it: opened values plus public inputs.
/// The Merkle caps and the low-degree opening proof stay with the
/// outside commitment subsystem.
#[derive(Debug, Clone, PartialEq, Eq)]
pub struct StarkProof {
    /// The opened values.
    pub openings: StarkOpenings,
    /// The public inputs the proof claims.
    pub public_inputs: Vec<u64>,
}

/// The Fiat-Shamir challenges, derived by the caller from the proof's
/// transcript.
#[derive(Debug, Clone, PartialEq, Eq)]
pub struct StarkChallenges {
    /// The constraint-folding challenges, one per accumulator.
    pub stark_alphas: Vec<u64>,
    /// The out-of-domain evaluation point.
    pub stark_zeta: ExtElem,
    /// The lookup challenges `gamma`.
    pub lookup_challenges: Vec<u64>,
}

/// Why a proof is rejected. Any rejection is final.
#[derive(Debug, Clone, Copy, PartialEq, Eq, Structural)]
pub enum StarkError {
    /// The openings do not have the declared shape, or a value is not
    /// a canonical field element.
    MalformedProof,
    /// The public-input count does not match the declared count.
    PublicInputsMismatch,
    /// The vanishing value does not match the reconstructed quotient
    /// at the challenge point.
    PolynomialIdentityFailure,
    /// The outside low-degree test rejected the committed openings.
    LowDegreeTestFailure,
}

/// `sum of s[i] * t^i`, reconstructing one chunked opening.
pub open spec fn spec_reduce_with_powers(s: Seq<ExtElem>, t: ExtElem) -> ExtElem
    decreases s.len(),
{
    if s.len() == 0 {
        ExtElem { c0: 0u64, c1: 0u64 }
    } else {
        spec_ext_add(
            s[0],
            spec_ext_mul(t, spec_reduce_with_powers(s.subrange(1, s.len() as int), t)),
        )
    }
}

/// Evaluates `sum of vals[start + i] * t^i` over `start..end` by a
/// backwards Horner pass.
fn reduce_with_powers_range(vals: &Vec<ExtElem>, start: usize, end: usize, t: ExtElem) -> (r:
    ExtElem)
    requires
        start <= end,
        end <= vals@.len(),
        ext_wf(t),
        forall|i: int| 0 <= i < vals@.len() ==> ext_wf(#[trigger] vals@[i]),
    ensures
        r == spec_reduce_with_powers(vals@.subrange(start as int, end as int), t),
        ext_wf(r),
{
    let mut acc = ext_zero();
    let mut j = end;
    while j > start
        invariant
            start <= j <= end,
            end <= vals@.len(),
            ext_wf(t),
            ext_wf(acc),
            forall|i: int| 0 <= i < vals@.len() ==> ext_wf(#[trigger] vals@[i]),
            acc == spec_reduce_with_powers(vals@.subrange(j as int, end as int), t),
        decreases j,
    {
        j = j - 1;
        acc = ext_add(vals[j], ext_mul(t, acc));
        proof {
            let sub = vals@.subrange(j as int, end as int);
            assert(sub[0] == vals@[j as int]);
            assert(sub.subrange(1, sub.len() as int) =~= vals@.subrange(
                j as int + 1,
                end as int,
            ));
        }
    }
    acc
}

/// Whether the openings and public inputs have the declared shape and
/// canonical values.
pub open spec fn spec_proof_wf(p: StarkProof, num_lookups: int, config: StarkConfig) -> bool {
    let o = p.openings;
    &&& o.local_values@.len() == NUM_BYTE_COLS
    &&& o.next_values@.len() == NUM_BYTE_COLS
    &&& o.lookup_zs@.len() == num_lookups * config.num_challenges
    &&& o.next_lookup_zs@.len() == num_lookups * config.num_challenges
    &&& o.quotient_polys@.len() == config.num_challenges * config.quotient_degree_factor
    &&& forall|i: int| 0 <= i < o.local_values@.len() ==> ext_wf(#[trigger] o.local_values@[i])
    &&& forall|i: int| 0 <= i < o.next_values@.len() ==> ext_wf(#[trigger] o.next_values@[i])
    &&& forall|i: int| 0 <= i < o.lookup_zs@.len() ==> ext_wf(#[trigger] o.lookup_zs@[i])
    &&& forall|i: int|
        0 <= i < o.next_lookup_zs@.len() ==> ext_wf(#[trigger] o.next_lookup_zs@[i])
    &&& forall|i: int|
        0 <= i < o.quotient_polys@.len() ==> ext_wf(#[trigger] o.quotient_polys@[i])
    &&& forall|i: int| 0 <= i < p.public_inputs@.len() ==> base_wf(#[trigger] p.public_inputs@[i])
}

/// Whether the challenges fit the configuration, with canonical
/// values.
pub open spec fn spec_challenges_wf(ch: StarkChallenges, config: StarkConfig) -> bool {
    &&& ch.stark_alphas@.len() == config.num_challenges
    &&& ch.lookup_challenges@.len() == config.num_challenges
    &&& forall|k: int| 0 <= k < ch.stark_alphas@.len() ==> base_wf(#[trigger] ch.stark_alphas@[k])
    &&& ext_wf(ch.stark_zeta)
    &&& forall|k: int|
        0 <= k < ch.lookup_challenges@.len() ==> base_wf(#[trigger] ch.lookup_challenges@[k])
}

/// Decides whether every element of a vector is canonical.
fn all_ext_wf(v: &Vec<ExtElem>) -> (ok: bool)
    ensures
        ok == (forall|i: int| 0 <= i < v@.len() ==> ext_wf(#[trigger] v@[i])),
{
    let mut i: usize = 0;
    while i < v.len()
        invariant
            i <= v@.len(),
            forall|j: int| 0 <= j < i ==> ext_wf(#[trigger] v@[j]),
        decreases v@.len() - i,
    {
        let x = v[i];
        if x.c0 >= crate::field::FIELD_ORDER || x.c1 >= crate::field::FIELD_ORDER {
            return false;
        }
        i = i + 1;
    }
    true
}

/// Decides whether every element of a vector is a canonical base
/// value.
fn all_base_wf(v: &Vec<u64>) -> (ok: bool)
    ensures
        ok == (forall|i: int| 0 <= i < v@.len() ==> base_wf(#[trigger] v@[i])),
{
    let mut i: usize = 0;
    while i < v.len()
        invariant
            i <= v@.len(),
            forall|j: int| 0 <= j < i ==> base_wf(#[trigger] v@[j]),
        decreases v@.len() - i,
    {
        if v[i] >= crate::field::FIELD_ORDER {
            return false;
        }
        i = i + 1;
    }
    true
}

/// Decides whether a proof has the declared shape and canonical
/// values.
fn check_proof_wf(p: &StarkProof, num_lookups: usize, config: &StarkConfig) -> (ok: bool)
    ensures
        ok == spec_proof_wf(*p, num_lookups as int, *config),
{
    let o = &p.openings;
    proof {
        let cap = 0xFFFF_FFFF_FFFF_FFFFu64 as int;
        vstd::arithmetic::mul::lemma_mul_upper_bound(
            num_lookups as int,
            cap,
            config.num_challenges as int,
            cap,
        );
        vstd::arithmetic::mul::lemma_mul_upper_bound(
            config.num_challenges as int,
            cap,
            config.quotient_degree_factor as int,
            cap,
        );
        vstd::arithmetic::mul::lemma_mul_nonnegative(
            num_lookups as int,
            config.num_challenges as int,
        );
        vstd::arithmetic::mul::lemma_mul_nonnegative(
            config.num_challenges as int,
            config.quotient_degree_factor as int,
        );
    }
    let zs_len = (num_lookups as u128) * (config.num_challenges as u128);
    let q_len = (config.num_challenges as u128) * (config.quotient_degree_factor as u128);
    if o.local_values.len() != NUM_BYTE_COLS {
        return false;
    }
    if o.next_values.len() != NUM_BYTE_COLS {
        return false;
    }
    if (o.lookup_zs.len() as u128) != zs_len {
        return false;
    }
    if (o.next_lookup_zs.len() as u128) != zs_len {
        return false;
    }
    if (o.quotient_polys.len() as u128) != q_len {
        return false;
    }
    if !all_ext_wf(&o.local_values) {
        return false;
    }
    if !all_ext_wf(&o.next_values) {
        return false;
    }
    if !all_ext_wf(&o.lookup_zs) {
        return false;
    }
    if !all_ext_wf(&o.next_lookup_zs) {
        return false;
    }
    if !all_ext_wf(&o.quotient_polys) {
        return false;
    }
    if !all_base_wf(&p.public_inputs) {
        return false;
    }
    true
}

/// The lookup check variables a proof's openings supply.
pub open spec fn spec_lookup_vars(p: StarkProof, ch: StarkChallenges) -> LookupCheckVars {
    LookupCheckVars {
        local_values: p.openings.lookup_zs,
        next_values: p.openings.next_lookup_zs,
        challenges: ch.lookup_challenges,
    }
}

/// The vanishing value the proof's openings give under challenge `k`:
/// every composed constraint folded with `alpha_k`, starting from
/// zero.
pub open spec fn spec_vanishing_value(
    p: StarkProof,
    ch: StarkChallenges,
    lookups: Seq<Lookup>,
    ctls: Option<Seq<CtlCheckVars>>,
    k: int,
) -> ExtElem {
    spec_fold_constraints(
        ch.stark_alphas@[k],
        ExtElem { c0: 0u64, c1: 0u64 },
        spec_vanishing_constraints(
            lookups,
            Option::Some(spec_lookup_vars(p, ch)),
            ctls,
            p.openings.local_values@,
        ),
    )
}

/// Whether the polynomial identity holds under challenge `k`:
/// `vanishing(zeta) == Z_H(zeta) * quotient_k(zeta)` with the quotient
/// reconstructed from chunk `k` of the quotient openings.
pub open spec fn spec_identity_ok(
    p: StarkProof,
    ch: StarkChallenges,
    lookups: Seq<Lookup>,
    ctls: Option<Seq<CtlCheckVars>>,
    config: StarkConfig,
    k: int,
) -> bool {
    let zeta_pow = spec_ext_pow2(ch.stark_zeta, config.degree_bits as nat);
    let z_h = spec_ext_sub(zeta_pow, ExtElem { c0: 1u64, c1: 0u64 });
    let chunk = p.openings.quotient_polys@.subrange(
        k * config.quotient_degree_factor,
        (k + 1) * config.quotient_degree_factor,
    );
    spec_vanishing_value(p, ch, lookups, ctls, k) == spec_ext_mul(
        z_h,
        spec_reduce_with_powers(chunk, zeta_pow),
    )
}

/// Whether the identity holds under every challenge.
pub open spec fn spec_identities_ok(
    p: StarkProof,
    ch: StarkChallenges,
    lookups: Seq<Lookup>,
    ctls: Option<Seq<CtlCheckVars>>,
    config: StarkConfig,
) -> bool {
    forall|k: int| 0 <= k < config.num_challenges ==> spec_identity_ok(p, ch, lookups, ctls, config, k)
}

/// Checks a proof against already-derived challenges: the public-input
/// count, the shape and canonicity of the openings, the polynomial
/// identity under every challenge, and the outside low-degree test's
/// verdict, in that order. Accepts exactly when all four hold.
#[verifier::loop_isolation(false)]
#[verifier::rlimit(100)]
pub fn verify_with_challenges(
    stark: &ByteStark,
    lookups: &Vec<Lookup>,
    proof: StarkProof,
    challenges: StarkChallenges,
    ctl_vars: Option<&Vec<CtlCheckVars>>,
    config: &StarkConfig,
    low_degree_ok: bool,
) -> (r: Result<(), StarkError>)
    requires
        forall|l: int| 0 <= l < lookups@.len() ==> lookup_wf(#[trigger] lookups@[l]),
        spec_challenges_wf(challenges, *config),
        match ctl_vars {
            Option::Some(cs) => forall|i: int| 0 <= i < cs@.len() ==> ctl_wf(#[trigger] cs@[i]),
            Option::None => true,
        },
    ensures
        ({
            let ctls = match ctl_vars {
                Option::Some(cs) => Option::Some(cs@),
                Option::None => Option::None,
            };
            let pub_ok = proof.public_inputs@.len() == config.num_public_inputs;
            let shape_ok = spec_proof_wf(proof, lookups@.len() as int, *config);
            let ids_ok = spec_identities_ok(proof, challenges, lookups@, ctls, *config);
            &&& (r is Ok <==> pub_ok && shape_ok && ids_ok && low_degree_ok)
            &&& (r == Result::<(), StarkError>::Err(StarkError::PublicInputsMismatch) <==> !pub_ok)
            &&& (pub_ok ==> (r == Result::<(), StarkError>::Err(StarkError::MalformedProof)
                <==> !shape_ok))
            &&& (pub_ok && shape_ok ==> (r == Result::<(), StarkError>::Err(
                StarkError::PolynomialIdentityFailure,
            ) <==> !ids_ok))
            &&& (pub_ok && shape_ok && ids_ok ==> (r == Result::<(), StarkError>::Err(
                StarkError::LowDegreeTestFailure,
            ) <==> !low_degree_ok))
        }),
{
    let ghost ctls = match ctl_vars {
        Option::Some(cs) => Option::Some(cs@),
        Option::None => Option::<Seq<CtlCheckVars>>::None,
    };
    if proof.public_inputs.len() != config.num_public_inputs {
        return Err(StarkError::PublicInputsMismatch);
    }
    if !check_proof_wf(&proof, lookups.len(), config) {
        return Err(StarkError::MalformedProof);
    }
    let ghost proof0 = proof;
    let ghost ch0 = challenges;
    let zeta = challenges.stark_zeta;
    let StarkProof { openings, public_inputs: _ } = proof;
    let StarkOpenings { local_values, next_values, lookup_zs, next_lookup_zs, quotient_polys } =
        openings;
    let StarkChallenges { stark_alphas, stark_zeta: _, lookup_challenges } = challenges;
    let frame = EvaluationFrame { local_values, next_values };
    let lvars = LookupCheckVars {
        local_values: lookup_zs,
        next_values: next_lookup_zs,
        challenges: lookup_challenges,
    };
    proof {
        assert(lvars == spec_lookup_vars(proof0, ch0));
        assert(frame_wf(frame));
        assert(crate::vanishing_poly::lookup_vars_wf(lvars, lookups@.len() as int));
    }
    let mut consumer = ConstraintConsumer::new(stark_alphas);
    eval_vanishing_poly(stark, &frame, lookups, Option::Some(&lvars), ctl_vars, &mut consumer);
    let zeta_pow = ext_exp_power_of_2(zeta, config.degree_bits);
    let z_h = ext_sub(zeta_pow, ext_one());
    let factor = config.quotient_degree_factor;
    let nc = config.num_challenges;
    let q_len = quotient_polys.len();
    let mut start: usize = 0;
    let mut k: usize = 0;
    while k < nc
        invariant
            k <= nc,
            start == k * factor,
            start <= q_len,
            forall|j: int|
                0 <= j < k ==> spec_identity_ok(proof0, ch0, lookups@, ctls, *config, j),
        decreases nc - k,
    {
        proof {
            vstd::arithmetic::mul::lemma_mul_inequality(k as int + 1, nc as int, factor as int);
            vstd::arithmetic::mul::lemma_mul_is_distributive_add_other_way(
                factor as int,
                k as int,
                1,
            );
            assert((k as int + 1) * factor as int <= nc as int * factor as int);
        }
        let end = start + factor;
        let t_k = reduce_with_powers_range(&quotient_polys, start, end, zeta_pow);
        let rhs = ext_mul(z_h, t_k);
        let v_k = consumer.accumulators[k];
        proof {
            assert(v_k == spec_vanishing_value(proof0, ch0, lookups@, ctls, k as int));
            assert(quotient_polys@ == proof0.openings.quotient_polys@);
        }
        if v_k != rhs {
            proof {
                assert(!spec_identity_ok(proof0, ch0, lookups@, ctls, *config, k as int));
            }
            return Err(StarkError::PolynomialIdentityFailure);
        }
        proof {
            assert(spec_identity_ok(proof0, ch0, lookups@, ctls, *config, k as int));
        }
        start = end;
        k = k + 1;
    }
    if !low_degree_ok {
        return Err(StarkError::LowDegreeTestFailure);
    }
    Ok(())
}

/// Verifies a proof. The caller derives the Fiat-Shamir challenges
/// from the proof's transcript and runs the outside low-degree test
/// over the committed caps; this function decides everything the
/// opened values decide and combines it with that verdict.
pub fn verify(
    stark: &ByteStark,
    lookups: &Vec<Lookup>,
    proof: StarkProof,
    challenges: StarkChallenges,
    ctl_vars: Option<&Vec<CtlCheckVars>>,
    config: &StarkConfig,
    low_degree_ok: bool,
) -> (r: Result<(), StarkError>)
    requires
        forall|l: int| 0 <= l < lookups@.len() ==> lookup_wf(#[trigger] lookups@[l]),
        spec_challenges_wf(challenges, *config),
        match ctl_vars {
            Option::Some(cs) => forall|i: int| 0 <= i < cs@.len() ==> ctl_wf(#[trigger] cs@[i]),
            Option::None => true,
        },
    ensures
        ({
            let ctls = match ctl_vars {
                Option::Some(cs) => Option::Some(cs@),
                Option::None => Option::None,
            };
            let pub_ok = proof.public_inputs@.len() == config.num_public_inputs;
            let shape_ok = spec_proof_wf(proof, lookups@.len() as int, *config);
            let ids_ok = spec_identities_ok(proof, challenges, lookups@, ctls, *config);
            &&& (r is Ok <==> pub_ok && shape_ok && ids_ok && low_degree_ok)
            &&& (r == Result::<(), StarkError>::Err(StarkError::PublicInputsMismatch) <==> !pub_ok)
            &&& (pub_ok ==> (r == Result::<(), StarkError>::Err(StarkError::MalformedProof)
                <==> !shape_ok))
            &&& (pub_ok && shape_ok ==> (r == Result::<(), StarkError>::Err(
                StarkError::PolynomialIdentityFailure,
            ) <==> !ids_ok))
            &&& (pub_ok && shape_ok && ids_ok ==> (r == Result::<(), StarkError>::Err(
                StarkError::LowDegreeTestFailure,
            ) <==> !low_degree_ok))
        }),
{
    verify_with_challenges(stark, lookups, proof, challenges, ctl_vars, config, low_degree_ok)
}

} // verus!

use byte_chip::byte_stark::ByteStark;
use byte_chip::field::ExtElem;
use byte_chip::lookup::{Lookup, ColumnCombination};
use byte_chip::vanishing_poly::{
    ConstraintConsumer, EvaluationFrame, LookupCheckVars, CtlCheckVars, eval_vanishing_poly,
};
use byte_chip::stark_verifier::{
    StarkConfig, StarkOpenings, StarkProof, StarkChallenges, StarkError, verify,
    verify_with_challenges,
};

fn base(v: u64) -> ExtElem {
    ExtElem { c0: v, c1: 0 }
}

fn zeros(n: usize) -> Vec<ExtElem> {
    vec![base(0); n]
}

fn config() -> StarkConfig {
    StarkConfig {
        degree_bits: 1,
        quotient_degree_factor: 1,
        num_challenges: 1,
        num_public_inputs: 0,
    }
}

fn zero_proof() -> StarkProof {
    StarkProof {
        openings: StarkOpenings {
            local_values: zeros(14),
            next_values: zeros(14),
            lookup_zs: zeros(4),
            next_lookup_zs: zeros(4),
            quotient_polys: zeros(1),
        },
        public_inputs: Vec::new(),
    }
}

fn challenges() -> StarkChallenges {
    StarkChallenges {
        stark_alphas: vec![0],
        stark_zeta: base(3),
        lookup_challenges: vec![5],
    }
}

#[test]
fn test_lookup_descriptors() {
    let stark = ByteStark::default();
    assert_eq!(stark.constraint_degree(), 0);
    let lookups = stark.lookups();
    assert_eq!(lookups.len(), 4);
    for (i, lk) in lookups.iter().enumerate() {
        let expected = vec![(i, 1u64), (12, 256), (13, 65536)];
        assert_eq!(lk.columns.len(), 1);
        assert_eq!(lk.columns[0].terms, expected);
        assert_eq!(lk.table_column.terms, expected);
        assert_eq!(lk.frequencies_column, 4 + i);
        assert_eq!(lk.filter_columns.len(), 1);
        assert_eq!(lk.filter_columns[0].column, 8 + i);
    }
}

#[test]
fn test_combined_value_injective_spot() {
    // The base-256 packing separates byte triples.
    let pack = |r: u64, b: u64, c: u64| r + 256 * b + 65536 * c;
    let vals = [0u64, 1, 2, 254, 255];
    let mut seen = Vec::new();
    for &r in &vals {
        for &b in &vals {
            for &c in &vals {
                seen.push(pack(r, b, c));
            }
        }
    }
    for i in 0..seen.len() {
        for j in 0..i {
            assert_ne!(seen[i], seen[j]);
        }
    }
    assert_ne!(pack(1, 2, 3), pack(2, 1, 3));
    assert_ne!(pack(0, 1, 0), pack(255, 0, 0));
}

#[test]
fn test_consumer_folds_constraints() {
    let mut consumer = ConstraintConsumer::new(vec![2]);
    consumer.constraint(base(3));
    consumer.constraint(base(5));
    // ((0 * 2) + 3) * 2 + 5 = 11.
    assert_eq!(consumer.accumulators, vec![base(11)]);
}

#[test]
fn test_eval_vanishing_poly_zero_openings() {
    let stark = ByteStark::default();
    let lookups = stark.lookups();
    let frame = EvaluationFrame { local_values: zeros(14), next_values: zeros(14) };
    let lvars = LookupCheckVars {
        local_values: zeros(4),
        next_values: zeros(4),
        challenges: vec![5],
    };
    let mut consumer = ConstraintConsumer::new(vec![9]);
    eval_vanishing_poly(&stark, &frame, &lookups, Some(&lvars), None, &mut consumer);
    // Every constraint evaluates to zero on all-zero openings.
    assert_eq!(consumer.accumulators, vec![base(0)]);
}

#[test]
fn test_eval_vanishing_poly_accumulator_step() {
    // With one accumulator stepping by one, the cleared-denominator
    // constraint of that group is (z' - z)(g - f)(g - t) = 1 * 5 * 5.
    let stark = ByteStark::default();
    let lookups = stark.lookups();
    let frame = EvaluationFrame { local_values: zeros(14), next_values: zeros(14) };
    let lvars = LookupCheckVars {
        local_values: zeros(4),
        next_values: vec![base(1), base(0), base(0), base(0)],
        challenges: vec![5],
    };
    // With alpha = 1 the accumulator is the plain sum of constraints.
    let mut consumer = ConstraintConsumer::new(vec![1]);
    eval_vanishing_poly(&stark, &frame, &lookups, Some(&lvars), None, &mut consumer);
    assert_eq!(consumer.accumulators, vec![base(25)]);
}

#[test]
fn test_verify_accepts_consistent_proof() {
    let stark = ByteStark::default();
    let lookups = stark.lookups();
    let r = verify(&stark, &lookups, zero_proof(), challenges(), None, &config(), true);
    assert_eq!(r, Ok(()));
}

#[test]
fn test_verify_rejects_low_degree_failure() {
    let stark = ByteStark::default();
    let lookups = stark.lookups();
    let r = verify_with_challenges(
        &stark,
        &lookups,
        zero_proof(),
        challenges(),
        None,
        &config(),
        false,
    );
    assert_eq!(r, Err(StarkError::LowDegreeTestFailure));
}

#[test]
fn test_verify_rejects_bad_quotient() {
    let stark = ByteStark::default();
    let lookups = stark.lookups();
    let mut proof = zero_proof();
    proof.openings.quotient_polys = vec![base(1)];
    let r = verify(&stark, &lookups, proof, challenges(), None, &config(), true);
    assert_eq!(r, Err(StarkError::PolynomialIdentityFailure));
}

#[test]
fn test_verify_rejects_public_input_mismatch() {
    let stark = ByteStark::default();
    let lookups = stark.lookups();
    let mut proof = zero_proof();
    proof.public_inputs = vec![1];
    let r = verify(&stark, &lookups, proof, challenges(), None, &config(), true);
    assert_eq!(r, Err(StarkError::PublicInputsMismatch));
}

#[test]
fn test_verify_rejects_malformed_proof() {
    let stark = ByteStark::default();
    let lookups = stark.lookups();

    // Wrong shape: a missing lookup accumulator opening.
    let mut proof = zero_proof();
    proof.openings.lookup_zs = zeros(3);
    let r = verify(&stark, &lookups, proof, challenges(), None, &config(), true);
    assert_eq!(r, Err(StarkError::MalformedProof));

    // A non-canonical value.
    let mut proof = zero_proof();
    proof.openings.local_values[0] = ExtElem { c0: u64::MAX, c1: 0 };
    let r = verify(&stark, &lookups, proof, challenges(), None, &config(), true);
    assert_eq!(r, Err(StarkError::MalformedProof));
}

#[test]
fn test_verify_accumulator_step_needs_matching_quotient() {
    // degree_bits = 0 makes Z_H(zeta) = zeta - 1 = 1 for zeta = 2, so
    // the quotient opening must equal the vanishing value exactly.
    let stark = ByteStark::default();
    let lookups = stark.lookups();
    let cfg = StarkConfig {
        degree_bits: 0,
        quotient_degree_factor: 1,
        num_challenges: 1,
        num_public_inputs: 0,
    };
    let ch = StarkChallenges {
        stark_alphas: vec![1],
        stark_zeta: base(2),
        lookup_challenges: vec![5],
    };
    let mut proof = zero_proof();
    proof.openings.next_lookup_zs = vec![base(1), base(0), base(0), base(0)];
    proof.openings.quotient_polys = vec![base(25)];
    let r = verify(&stark, &lookups, proof.clone(), ch.clone(), None, &cfg, true);
    assert_eq!(r, Ok(()));

    proof.openings.quotient_polys = vec![base(24)];
    let r = verify(&stark, &lookups, proof, ch, None, &cfg, true);
    assert_eq!(r, Err(StarkError::PolynomialIdentityFailure));
}

#[test]
fn test_verify_with_cross_table_check() {
    // One cross-table check whose selector reads column 0 of the
    // opened row: the vanishing value becomes -(local[0]).
    let stark = ByteStark::default();
    let lookups = stark.lookups();
    let cfg = StarkConfig {
        degree_bits: 0,
        quotient_degree_factor: 1,
        num_challenges: 1,
        num_public_inputs: 0,
    };
    let ch = StarkChallenges {
        stark_alphas: vec![0],
        stark_zeta: base(2),
        lookup_challenges: vec![5],
    };
    let ctl = vec![CtlCheckVars {
        local_z: base(0),
        next_z: base(0),
        challenge: 7,
        columns: ColumnCombination { terms: Vec::new() },
        selector: ColumnCombination { terms: vec![(0, 1)] },
    }];
    let mut proof = zero_proof();
    proof.openings.local_values[0] = base(4);
    // -(4) mod p.
    proof.openings.quotient_polys = vec![base(byte_chip::field::FIELD_ORDER - 4)];
    let r = verify(&stark, &lookups, proof, ch, Some(&ctl), &cfg, true);
    assert_eq!(r, Ok(()));
}

#[test]
fn test_lookup_descriptor_types_compose() {
    // A descriptor can be rebuilt from its parts and compared.
    let stark = ByteStark::default();
    let lookups = stark.lookups();
    let rebuilt = Lookup {
        columns: lookups[0].columns.clone(),
        table_column: lookups[0].table_column.clone(),
        frequencies_column: lookups[0].frequencies_column,
        filter_columns: lookups[0].filter_columns.clone(),
    };
    assert_eq!(rebuilt, lookups[0]);
}

#[test]
fn test_request_combined_value_found_in_table() {
    // Every request row's packed (result, b, c) value reappears as the
    // table-side combination of its target row, in the same group.
    let stark = ByteStark::default();
    let events = vec![
        byte_chip::event::ByteLookupEvent::new(byte_chip::opcode::ByteOpcode::XOR, 6, 3, 5),
        byte_chip::event::ByteLookupEvent::new(byte_chip::opcode::ByteOpcode::LEU, 0, 9, 4),
    ];
    let rows = stark.generate_trace_rows(events).unwrap();
    let pack = |row: &Vec<u64>, g: usize| row[g] + 256 * row[12] + 65536 * row[13];
    for (j, g) in [(0usize, 2usize), (1, 3)] {
        let req = &rows[65536 + j];
        let target = (256 * req[12] + req[13]) as usize;
        assert_eq!(pack(req, g), pack(&rows[target], g));
    }
}

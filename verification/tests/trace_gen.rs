use byte_chip::byte_stark::{ByteStark, ByteChipError};
use byte_chip::event::ByteLookupEvent;
use byte_chip::opcode::{ByteOpcode, all_byte_opcodes, opcode_group, NUM_BYTE_OP_COLS, NUM_BYTE_OPS};
use byte_chip::columns::{
    opcode_index, multiplicities_index, filter_index, b_index, c_index, NUM_BYTE_COLS,
};
use byte_chip::NUM_ROWS;

fn scenario_events() -> Vec<ByteLookupEvent> {
    vec![
        ByteLookupEvent::new(ByteOpcode::AND, 0 & 1, 0, 1),
        ByteLookupEvent::new(ByteOpcode::OR, 0 | 1, 0, 1),
        ByteLookupEvent::new(ByteOpcode::XOR, 0 ^ 1, 0, 1),
        ByteLookupEvent::new(ByteOpcode::LEU, 1, 1, 1),
        ByteLookupEvent::new(ByteOpcode::U8Range, 0, 2, 2),
    ]
}

#[test]
fn test_column_layout() {
    assert_eq!(NUM_BYTE_COLS, 14);
    assert_eq!(NUM_BYTE_OP_COLS, 4);
    assert_eq!(NUM_BYTE_OPS, 5);
    for i in 0..4 {
        assert_eq!(opcode_index(i), i);
        assert_eq!(multiplicities_index(i), 4 + i);
        assert_eq!(filter_index(i), 8 + i);
    }
    assert_eq!(b_index(), 12);
    assert_eq!(c_index(), 13);
}

#[test]
fn test_opcode_catalog() {
    let ops = all_byte_opcodes();
    assert_eq!(
        ops,
        vec![
            ByteOpcode::AND,
            ByteOpcode::OR,
            ByteOpcode::XOR,
            ByteOpcode::LEU,
            ByteOpcode::U8Range,
        ]
    );
    assert_eq!(opcode_group(ByteOpcode::AND), 0);
    assert_eq!(opcode_group(ByteOpcode::OR), 1);
    assert_eq!(opcode_group(ByteOpcode::XOR), 2);
    assert_eq!(opcode_group(ByteOpcode::LEU), 3);
}

#[test]
fn test_event_accessors() {
    let e = ByteLookupEvent::new(ByteOpcode::XOR, 6, 3, 5);
    assert_eq!(e.get_opcode(), ByteOpcode::XOR);
    assert_eq!(e.a, 6);
    assert_eq!(e.b, 3);
    assert_eq!(e.c, 5);
}

#[test]
fn test_table_exhaustive() {
    let stark = ByteStark::default();
    let rows = stark.generate_trace_rows(Vec::new()).unwrap();
    assert_eq!(rows.len(), NUM_ROWS);
    for b in 0..=255u64 {
        for c in 0..=255u64 {
            let row = &rows[(256 * b + c) as usize];
            assert_eq!(row[0], b & c);
            assert_eq!(row[1], b | c);
            assert_eq!(row[2], b ^ c);
            assert_eq!(row[3], if b <= c { 1 } else { 0 });
            assert_eq!(row[12], b);
            assert_eq!(row[13], c);
            for g in 0..4 {
                assert_eq!(row[4 + g], 0, "no multiplicity without events");
                assert_eq!(row[8 + g], 0, "table rows carry no filter bit");
            }
        }
    }
}

#[test]
fn test_scenario_multiplicities() {
    let stark = ByteStark::default();
    let rows = stark.generate_trace_rows(scenario_events()).unwrap();

    // Row for (b=0, c=1): AND, OR, XOR each incremented once.
    let row01 = &rows[1];
    assert_eq!(row01[4], 1);
    assert_eq!(row01[5], 1);
    assert_eq!(row01[6], 1);
    assert_eq!(row01[7], 0);

    // The explicit LEU event targets (1, 1).
    assert_eq!(rows[256 + 1][7], 1);

    // U8Range(_, 2, 2) expands to LEU(1,0,2) twice and LEU(1,2,255)
    // twice.
    assert_eq!(rows[2][7], 2);
    assert_eq!(rows[2 * 256 + 255][7], 2);
}

#[test]
fn test_scenario_request_rows() {
    let stark = ByteStark::default();
    let rows = stark.generate_trace_rows(scenario_events()).unwrap();

    // Four direct requests, then four synthetic LEU requests.
    let expected: [(usize, u64, u64, u64); 8] = [
        (0, 0, 0, 1), // AND(0, 0, 1)
        (1, 1, 0, 1), // OR(1, 0, 1)
        (2, 1, 0, 1), // XOR(1, 0, 1)
        (3, 1, 1, 1), // LEU(1, 1, 1)
        (3, 1, 0, 2), // LEU(1, 0, b)
        (3, 1, 2, 255), // LEU(1, b, 255)
        (3, 1, 0, 2), // LEU(1, 0, c)
        (3, 1, 2, 255), // LEU(1, c, 255)
    ];
    for (j, &(g, a, b, c)) in expected.iter().enumerate() {
        let row = &rows[NUM_ROWS + j];
        for col in 0..14 {
            let want = if col == g {
                a
            } else if col == 8 + g {
                1
            } else if col == 12 {
                b
            } else if col == 13 {
                c
            } else {
                0
            };
            assert_eq!(row[col], want, "request row {} column {}", j, col);
        }
    }
}

#[test]
fn test_multiplicity_soundness() {
    // For every column group, the multiplicities over the exhaustive
    // half sum to the number of later rows with that filter bit set.
    let stark = ByteStark::default();
    let rows = stark.generate_trace_rows(scenario_events()).unwrap();
    for g in 0..4 {
        let mult_sum: u64 = rows[..NUM_ROWS].iter().map(|r| r[4 + g]).sum();
        let filter_count: u64 = rows[NUM_ROWS..]
            .iter()
            .map(|r| if r[8 + g] == 1 { 1 } else { 0 })
            .sum();
        assert_eq!(mult_sum, filter_count, "group {}", g);
    }
}

#[test]
fn test_padding_power_of_two() {
    let stark = ByteStark::default();

    // No events: the exhaustive half is already a power of two.
    let rows = stark.generate_trace_rows(Vec::new()).unwrap();
    assert_eq!(rows.len(), 65536);

    // One event adds one request row; the total is padded to the next
    // power of two.
    let one = vec![ByteLookupEvent::new(ByteOpcode::AND, 0, 0, 0)];
    let rows = stark.generate_trace_rows(one).unwrap();
    assert_eq!(rows.len(), 131072);
    for i in 65537..131072 {
        assert!(rows[i].iter().all(|&v| v == 0), "padding row {} not zero", i);
    }

    // A U8Range event expands to four request rows.
    let range = vec![ByteLookupEvent::new(ByteOpcode::U8Range, 0, 9, 10)];
    let rows = stark.generate_trace_rows(range).unwrap();
    assert_eq!(rows.len(), 131072);
    assert!(rows[65536 + 3][8 + 3] == 1);
    assert!(rows[65536 + 4].iter().all(|&v| v == 0));
}

#[test]
fn test_malformed_event_rejected() {
    let stark = ByteStark::default();

    // A claim of a false result.
    let bad = ByteLookupEvent::new(ByteOpcode::AND, 1, 0, 1);
    let r = stark.generate_trace_rows(vec![bad]);
    assert_eq!(r, Err(ByteChipError::EventNotInTable(bad)));

    // An operand outside the byte range.
    let wide = ByteLookupEvent::new(ByteOpcode::XOR, 0, 300, 300);
    let r = stark.generate_trace_rows(vec![wide]);
    assert_eq!(r, Err(ByteChipError::EventNotInTable(wide)));

    // A U8Range event whose checked value is not a byte.
    let wide_range = ByteLookupEvent::new(ByteOpcode::U8Range, 0, 0, 256);
    let r = stark.generate_trace_rows(vec![wide_range]);
    assert_eq!(r, Err(ByteChipError::EventNotInTable(wide_range)));

    // The first offending event is the one reported.
    let ok = ByteLookupEvent::new(ByteOpcode::OR, 3, 1, 2);
    let r = stark.generate_trace_rows(vec![ok, wide, bad]);
    assert_eq!(r, Err(ByteChipError::EventNotInTable(wide)));
}

#[test]
fn test_column_major_trace() {
    let stark = ByteStark::default();
    let rows = stark.generate_trace_rows(scenario_events()).unwrap();
    let cols = stark.generate_trace(scenario_events()).unwrap();
    assert_eq!(cols.len(), NUM_BYTE_COLS);
    for col in &cols {
        assert_eq!(col.len(), rows.len());
    }
    for (i, row) in rows.iter().enumerate().step_by(997) {
        for j in 0..NUM_BYTE_COLS {
            assert_eq!(cols[j][i], row[j]);
        }
    }
    // Spot checks straight into the column-major form.
    assert_eq!(cols[12][513], 2);
    assert_eq!(cols[13][513], 1);
    assert_eq!(cols[4][1], 1);
}

#[test]
fn test_filter_flip_breaks_lookup_balance() {
    // Clearing one request row's filter bit without removing its
    // multiplicity contribution unbalances the lookup identity: the
    // recorded multiplicities no longer equal the filtered request
    // count.
    let stark = ByteStark::default();
    let mut rows = stark.generate_trace_rows(scenario_events()).unwrap();
    assert_eq!(rows[NUM_ROWS][8], 1);
    rows[NUM_ROWS][8] = 0;
    let mult_sum: u64 = rows[..NUM_ROWS].iter().map(|r| r[4]).sum();
    let filter_count: u64 = rows[NUM_ROWS..]
        .iter()
        .map(|r| if r[8] == 1 { 1 } else { 0 })
        .sum();
    assert_ne!(mult_sum, filter_count);
}

#[test]
fn test_event_is_ordered_map_key() {
    // Events are totally ordered and hashable, so they serve as map
    // keys.
    let mut by_order = std::collections::BTreeMap::new();
    let mut by_hash = std::collections::HashMap::new();
    for (i, e) in scenario_events().into_iter().enumerate() {
        by_order.insert(e, i);
        by_hash.insert(e, i);
    }
    let leu = ByteLookupEvent::new(ByteOpcode::LEU, 1, 1, 1);
    assert_eq!(by_order.get(&leu), Some(&3));
    assert_eq!(by_hash.get(&leu), Some(&3));
    assert_eq!(by_order.len(), 5);
    let first = *by_order.keys().next().unwrap();
    assert_eq!(first.get_opcode(), ByteOpcode::AND);
}

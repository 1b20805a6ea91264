use tshirt_checker::gamma_tables::{GAMMA_17, GAMMA_22, GAMMA_30};

// Helper function that computes the tables algorithmically.
fn compute_expected(gamma: f32) -> Vec<u16> {
    let mut outvec = Vec::new();
    for n in 0..=256 {
        let input = (n as f32) / 256.0;
        let output = input.powf(gamma);
        outvec.push((output * 256.0) as u16);
    }
    outvec
}

#[test]
fn should_match_computed_output() {
    assert_eq!(compute_expected(1.7), GAMMA_17);
    assert_eq!(compute_expected(2.2), GAMMA_22);
    assert_eq!(compute_expected(3.0), GAMMA_30);
}

#[test]
fn gamma_tables_map_ends_to_ends() {
    for table in [GAMMA_17, GAMMA_22, GAMMA_30] {
        assert_eq!(0, table[0]);
        assert_eq!(256, table[256]);
        for i in 0..256 {
            assert!(table[i] <= table[i + 1]);
        }
    }
}

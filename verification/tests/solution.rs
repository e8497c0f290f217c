use zkchess::solution::{accepts_solution, merkle_path_bytes};

#[test]
fn accepts_the_solved_puzzle() {
    let input = String::from(
        "{\"b\":[\"Kf8\",\"Pf7\",\"Pg7\",\"Ph7\",\"Pe7\"],\"moves\":[\"f3f7\"],\"w\":[\"Ke1\",\"Qf3\",\"Bc4\",\"Pd2\",\"Pe4\"]}",
    );
    assert!(accepts_solution(&input));
}

#[test]
fn refuses_other_inputs() {
    let other_move = String::from(
        "{\"b\":[\"Kf8\",\"Pf7\",\"Pg7\",\"Ph7\",\"Pe7\"],\"moves\":[\"e4e5\"],\"w\":[\"Ke1\",\"Qf3\",\"Bc4\",\"Pd2\",\"Pe4\"]}",
    );
    assert!(!accepts_solution(&other_move));
    assert!(!accepts_solution(&String::new()));
}

#[test]
fn merkle_path_nodes_are_joined_in_order() {
    let mut a = [0u8; 32];
    let mut b = [0u8; 32];
    a[0] = 1;
    a[31] = 2;
    b[0] = 3;
    b[31] = 4;
    let bytes = merkle_path_bytes(&vec![a, b]);
    assert_eq!(bytes.len(), 64);
    assert_eq!(bytes[0], 1);
    assert_eq!(bytes[31], 2);
    assert_eq!(bytes[32], 3);
    assert_eq!(bytes[63], 4);
    assert!(merkle_path_bytes(&Vec::new()).is_empty());
}

use winter_circom_prover::{fold_positions, position_index, query_rows};

#[test]
fn positions_fold_onto_the_next_domain_once_each() {
    assert_eq!(fold_positions(&vec![13, 2, 5, 10, 7], 16, 2), vec![5, 2, 7]);
    assert_eq!(fold_positions(&vec![13, 2, 5, 10, 7], 16, 4), vec![1, 2, 3]);
    assert_eq!(fold_positions(&vec![3, 1, 2], 4, 1), vec![3, 1, 2]);
    assert_eq!(fold_positions(&vec![9, 4, 6], 8, 8), vec![0]);
    assert_eq!(fold_positions(&vec![], 8, 2), Vec::<usize>::new());
}

#[test]
fn a_position_is_found_where_it_first_stands() {
    assert_eq!(position_index(&vec![5, 2, 7, 2], 2), Some(1));
    assert_eq!(position_index(&vec![5, 2, 7, 2], 5), Some(0));
    assert_eq!(position_index(&vec![5, 2, 7, 2], 3), None);
    assert_eq!(position_index(&vec![], 0), None);
}

#[test]
fn every_query_has_the_row_of_its_folded_position() {
    let positions = vec![13, 2, 5, 10, 7];
    let folded = fold_positions(&positions, 16, 2);
    assert_eq!(query_rows(&positions, &folded, 8), Some(vec![0, 1, 0, 1, 2]));
    let again = fold_positions(&folded, 8, 2);
    assert_eq!(again, vec![1, 2, 3]);
    assert_eq!(query_rows(&positions, &again, 4), Some(vec![0, 1, 0, 1, 2]));
    assert_eq!(query_rows(&positions, &vec![5, 2], 8), None);
}

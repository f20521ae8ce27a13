use lightningview::nav::NavState;

fn five_files() -> Vec<String> {
    vec![
        "a.png".to_string(),
        "b.png".to_string(),
        "c.png".to_string(),
        "d.png".to_string(),
        "e.png".to_string(),
    ]
}

fn is_identity(order: &[usize]) -> bool {
    order.iter().enumerate().all(|(i, &v)| i == v)
}

fn is_permutation(order: &[usize], n: usize) -> bool {
    let mut sorted: Vec<usize> = order.to_vec();
    sorted.sort();
    sorted == (0..n).collect::<Vec<usize>>()
}

#[test]
fn new_starts_in_identity_order() {
    let nav = NavState::new(five_files(), 2);
    assert!(is_identity(&nav.order));
    assert_eq!(nav.position, 2);
    assert!(!nav.randomized);
    assert_eq!(nav.len(), 5);
    assert_eq!(nav.current_index(), 2);
    assert_eq!(nav.current_file().as_str(), "c.png");
}

#[test]
fn out_of_range_start_falls_back_to_first() {
    let nav = NavState::new(five_files(), 99);
    assert_eq!(nav.position, 0);
}

#[test]
fn advance_wraps_both_ways() {
    let mut nav = NavState::new(five_files(), 4);
    nav.next();
    assert_eq!(nav.position, 0);
    nav.prev();
    assert_eq!(nav.position, 4);
    nav.first();
    assert_eq!(nav.position, 0);
    nav.prev();
    assert_eq!(nav.position, 4);
    nav.last();
    assert_eq!(nav.position, 4);
    nav.next();
    nav.next();
    assert_eq!(nav.position, 1);
}

#[test]
fn empty_list_is_left_alone() {
    let mut nav = NavState::new(Vec::new(), 0);
    nav.next();
    nav.prev();
    nav.first();
    nav.last();
    assert_eq!(nav.position, 0);
    assert_eq!(nav.len(), 0);
}

#[test]
fn toggle_preserves_the_viewed_file() {
    // The navigation-order invariant: whichever way the permutation flips,
    // the position pointer still resolves to the same underlying file.
    let mut nav = NavState::new(five_files(), 3);
    let viewed = nav.current_index();
    nav.toggle_random();
    assert!(nav.randomized);
    assert!(is_permutation(&nav.order, 5));
    assert_eq!(nav.current_index(), viewed);
    nav.toggle_random();
    assert!(!nav.randomized);
    assert_eq!(nav.current_index(), viewed);
}

#[test]
fn toggling_back_restores_identity() {
    // A 5-file directory toggled to random order and back must land on the
    // exact original identity permutation.
    let mut nav = NavState::new(five_files(), 1);
    nav.toggle_random();
    nav.toggle_random();
    assert!(is_identity(&nav.order));
    assert_eq!(nav.order, vec![0, 1, 2, 3, 4]);
}

#[test]
fn shuffle_of_a_large_list_is_still_a_permutation() {
    let files: Vec<String> = (0..200).map(|i| format!("{:03}.png", i)).collect();
    let mut nav = NavState::new(files, 57);
    let viewed = nav.current_index();
    nav.toggle_random();
    assert!(is_permutation(&nav.order, 200));
    assert_eq!(nav.current_index(), viewed);
}

#[test]
fn delete_shifts_higher_entries_down() {
    // Deleting at permutation position p (underlying index j) removes one
    // entry from list and permutation and decrements every entry past j.
    let mut nav = NavState::new(five_files(), 2);
    let removed = nav.delete_current();
    assert_eq!(removed, 2);
    assert_eq!(nav.len(), 4);
    assert_eq!(
        nav.files,
        vec!["a.png".to_string(), "b.png".to_string(), "d.png".to_string(), "e.png".to_string()]
    );
    assert_eq!(nav.order, vec![0, 1, 2, 3]);
    assert_eq!(nav.position, 2);
    assert_eq!(nav.current_file().as_str(), "d.png");
}

#[test]
fn delete_at_the_end_wraps_the_position() {
    let mut nav = NavState::new(five_files(), 4);
    let removed = nav.delete_current();
    assert_eq!(removed, 4);
    // 4 mod 4 == 0: the position wraps to the front.
    assert_eq!(nav.position, 0);
    assert_eq!(nav.current_file().as_str(), "a.png");
}

#[test]
fn delete_last_remaining_file_empties_the_state() {
    let mut nav = NavState::new(vec!["only.png".to_string()], 0);
    let removed = nav.delete_current();
    assert_eq!(removed, 0);
    assert_eq!(nav.len(), 0);
    assert_eq!(nav.position, 0);
}

#[test]
fn delete_in_random_order_keeps_a_permutation() {
    let files: Vec<String> = (0..20).map(|i| format!("{:02}.png", i)).collect();
    let mut nav = NavState::new(files, 7);
    nav.toggle_random();
    nav.delete_current();
    assert_eq!(nav.len(), 19);
    assert!(is_permutation(&nav.order, 19));
}

use quant_planet::select::{first_match, select_masked};

#[test]
fn first_match_finds_first() {
    assert_eq!(first_match(&vec![false, true, true]), Some(1));
    assert_eq!(first_match(&vec![true]), Some(0));
}

#[test]
fn first_match_none() {
    assert_eq!(first_match(&vec![]), None);
    assert_eq!(first_match(&vec![false, false]), None);
}

#[test]
fn select_keeps_marked_in_order() {
    let items = vec![10, 20, 30, 40, 50];
    let mask = vec![true, false, true, false, true];
    assert_eq!(select_masked(&items, &mask), vec![10, 30, 50]);
}

#[test]
fn select_all_and_none() {
    let items = vec!['a', 'b', 'c'];
    assert_eq!(select_masked(&items, &vec![true; 3]), items);
    assert_eq!(select_masked(&items, &vec![false; 3]), Vec::<char>::new());
    assert_eq!(select_masked::<u8>(&vec![], &vec![]), vec![]);
}

//! The processes that descend from the child.

use pee::processes::{descendant_processes, extend, parse_table, Process};

#[test]
fn a_table_is_pairs_of_numbers() {
    assert_eq!(
        parse_table(" 10 1\n 11\t10\n"),
        Some(vec![
            Process { pid: 10, parent: 1 },
            Process { pid: 11, parent: 10 },
        ])
    );
    assert_eq!(parse_table(""), Some(Vec::new()));
    assert_eq!(parse_table("10"), None);
    assert_eq!(parse_table("10 x"), None);
    assert_eq!(parse_table("10 4294967296"), None);
    assert_eq!(
        parse_table("4294967295 0"),
        Some(vec![Process { pid: u32::MAX, parent: 0 }])
    );
}

fn sorted(mut pids: Vec<u32>) -> Vec<u32> {
    pids.sort_unstable();
    pids
}

#[test]
fn descendants_are_found_in_any_order() {
    let table = parse_table("5 4\n4 3\n3 1\n9 1\n6 4\n").unwrap();
    assert_eq!(sorted(descendant_processes(3, &table)), vec![4, 5, 6]);
    assert_eq!(sorted(descendant_processes(1, &table)), vec![3, 4, 5, 6, 9]);
    assert_eq!(descendant_processes(5, &table), Vec::<u32>::new());
    assert_eq!(descendant_processes(77, &table), Vec::<u32>::new());
}

#[test]
fn a_table_with_a_cycle_is_searched_to_its_end() {
    let table = parse_table("2 3\n3 2\n").unwrap();
    let found = sorted(descendant_processes(2, &table));
    assert!(found.contains(&3));
}

#[test]
fn who_is_known_stays_known() {
    let mut known = vec![4, 5];
    extend(&mut known, &vec![5, 6, 6]);
    assert_eq!(known, vec![4, 5, 6]);
    extend(&mut known, &Vec::new());
    assert_eq!(known, vec![4, 5, 6]);
}

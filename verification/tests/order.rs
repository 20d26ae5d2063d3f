use soroban_storage::order::{dedup_paths, report_order};

fn places(paths: &[&str]) -> Vec<(String, usize, usize)> {
    paths.iter().map(|p| (p.to_string(), 0, 0)).collect()
}

#[test]
fn paths_order_by_component() {
    let paths = ["src/b.rs", "src/a/x.rs", "src/a-b.rs", "/abs/z.rs", "./c.rs", "src/a.rs"];
    let order = report_order(&places(&paths));
    let sorted: Vec<&str> = order.iter().map(|&i| paths[i]).collect();
    assert_eq!(sorted, vec!["/abs/z.rs", "./c.rs", "src/a/x.rs", "src/a-b.rs", "src/a.rs", "src/b.rs"]);
    let mut std_sorted: Vec<std::path::PathBuf> = paths.iter().map(std::path::PathBuf::from).collect();
    std_sorted.sort();
    let std_sorted: Vec<String> = std_sorted.iter().map(|p| p.display().to_string()).collect();
    assert_eq!(sorted, std_sorted);
}

#[test]
fn findings_order_by_place_and_keep_ties_in_order() {
    let ps = vec![
        ("b.rs".to_string(), 3, 1),
        ("a.rs".to_string(), 10, 5),
        ("a.rs".to_string(), 2, 9),
        ("a.rs".to_string(), 10, 5),
        ("a.rs".to_string(), 10, 1),
    ];
    assert_eq!(report_order(&ps), vec![2, 4, 1, 3, 0]);
    assert!(report_order(&vec![]).is_empty());
}

#[test]
fn equal_paths_are_listed_once() {
    let paths = vec!["src/a.rs".to_string(), "src//a.rs".to_string(), "src/b.rs".to_string(), "src/./b.rs".to_string()];
    let ps: Vec<(String, usize, usize)> = paths.iter().map(|p| (p.clone(), 0, 0)).collect();
    let order = report_order(&ps);
    assert_eq!(order, vec![0, 1, 2, 3]);
    assert_eq!(dedup_paths(&paths, &order), vec![0, 2]);
}

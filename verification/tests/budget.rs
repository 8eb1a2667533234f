use live_scraper::knapsack::knapsack;

type Item = (i64, i64, String, String);

fn items(list: &[(i64, i64)]) -> Vec<Item> {
    list.iter()
        .enumerate()
        .map(|(i, (weight, value))| (*weight, *value, format!("id{}", i), format!("uuid{}", i)))
        .collect()
}

fn split(list: &[(i64, i64)], max_weight: i64) -> (Vec<String>, Vec<String>) {
    let (yes, no) = knapsack(items(list), max_weight);
    (
        yes.into_iter().map(|i| i.2).collect(),
        no.into_iter().map(|i| i.2).collect(),
    )
}

fn best_of_all(list: &[(i64, i64)], max_weight: i64) -> i64 {
    let mut best = 0;
    for mask in 0..(1u32 << list.len()) {
        let picked: Vec<&(i64, i64)> = list
            .iter()
            .enumerate()
            .filter(|(i, _)| mask & (1 << i) != 0)
            .map(|(_, item)| item)
            .collect();
        let weight: i64 = picked.iter().map(|i| i.0).sum();
        let value: i64 = picked.iter().map(|i| i.1).sum();
        if weight <= max_weight && value > best {
            best = value;
        }
    }
    best
}

#[test]
fn knapsack_takes_the_most_valuable_selection() {
    assert_eq!(
        split(&[(3, 5), (4, 6), (2, 3)], 6),
        (vec!["id1".to_string(), "id2".to_string()], vec!["id0".to_string()])
    );
}

#[test]
fn knapsack_of_nothing() {
    let (yes, no) = knapsack(items(&[]), 10);
    assert!(yes.is_empty() && no.is_empty());
    let (yes, no) = split(&[(1, 5)], 0);
    assert!(yes.is_empty());
    assert_eq!(no, vec!["id0".to_string()]);
}

#[test]
fn knapsack_takes_what_weighs_nothing() {
    let (yes, no) = split(&[(0, 1), (0, 0), (0, -1)], 0);
    assert_eq!(yes, vec!["id0".to_string()]);
    assert_eq!(no, vec!["id1".to_string(), "id2".to_string()]);
}

#[test]
fn knapsack_takes_nothing_worthless() {
    let (yes, no) = split(&[(1, 0), (2, 3), (1, -4), (3, 1)], 10);
    assert_eq!(yes, vec!["id1".to_string(), "id3".to_string()]);
    assert_eq!(no, vec!["id0".to_string(), "id2".to_string()]);
}

#[test]
fn knapsack_never_takes_negative_weights() {
    let (yes, no) = split(&[(-1, 100), (1, 1), (i64::MIN, 5), (i64::MAX, 5)], 1);
    assert_eq!(yes, vec!["id1".to_string()]);
    assert_eq!(no, vec!["id0".to_string(), "id2".to_string(), "id3".to_string()]);
}

#[test]
fn knapsack_prefers_earlier_items_of_equal_value() {
    let (yes, no) = split(&[(2, 4), (2, 4)], 3);
    assert_eq!(yes, vec!["id0".to_string()]);
    assert_eq!(no, vec!["id1".to_string()]);
}

#[test]
fn knapsack_keeps_every_item_and_the_budget_and_is_optimal() {
    let list = [(5, 10), (4, 40), (6, 30), (3, 50), (2, 7), (7, 1), (1, 9)];
    for max_weight in 0..20 {
        let (yes, no) = knapsack(items(&list), max_weight);
        let weight: i64 = yes.iter().map(|i| i.0).sum();
        let value: i64 = yes.iter().map(|i| i.1).sum();
        assert!(weight <= max_weight);
        assert_eq!(value, best_of_all(&list, max_weight));
        let mut all: Vec<Item> = yes.into_iter().chain(no).collect();
        all.sort_by(|a, b| a.2.cmp(&b.2));
        assert_eq!(all, items(&list));
    }
}

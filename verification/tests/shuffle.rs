use tawny::shuffle::shuffled;

#[test]
fn a_shuffle_keeps_every_id_exactly_once() {
    let ids: Vec<String> = (0..20).map(|k| format!("v{k}")).collect();
    for seed in [0u64, 1, 42, u64::MAX] {
        let mut out = shuffled(ids.clone(), seed);
        assert_eq!(out.len(), ids.len());
        out.sort();
        let mut expected = ids.clone();
        expected.sort();
        assert_eq!(out, expected);
    }
}

#[test]
fn the_same_seed_deals_the_same_order_and_another_seed_another() {
    let ids: Vec<String> = (0..20).map(|k| format!("v{k}")).collect();
    assert_eq!(shuffled(ids.clone(), 7), shuffled(ids.clone(), 7));
    assert_ne!(shuffled(ids.clone(), 7), shuffled(ids.clone(), 8));
    assert_ne!(shuffled(ids.clone(), 7), ids);
}

#[test]
fn short_lists_stay_as_they_are() {
    assert!(shuffled(Vec::new(), 3).is_empty());
    assert_eq!(shuffled(vec!["only".to_string()], 3), vec!["only".to_string()]);
}

use csv_rag::ranking::rank_top;

#[test]
fn rank_top_puts_the_most_similar_first() {
    assert_eq!(rank_top(&vec![10, 40, 20, 30], 4), vec![1, 3, 2, 0]);
    assert_eq!(rank_top(&vec![1, 2, 3], 3), vec![2, 1, 0]);
    assert_eq!(rank_top(&vec![3, 2, 1], 3), vec![0, 1, 2]);
}

#[test]
fn rank_top_cuts_off_after_the_limit() {
    assert_eq!(rank_top(&vec![10, 40, 20, 30], 2), vec![1, 3]);
    assert_eq!(rank_top(&vec![10, 40, 20, 30], 1), vec![1]);
    assert_eq!(rank_top(&vec![5, 1, 4, 2, 3, 9, 0], 5), vec![5, 0, 2, 4, 3]);
}

#[test]
fn rank_top_with_limit_zero_is_empty() {
    assert!(rank_top(&vec![10, 40, 20], 0).is_empty());
    assert!(rank_top(&Vec::new(), 0).is_empty());
}

#[test]
fn rank_top_gives_all_where_the_limit_is_not_reached() {
    assert_eq!(rank_top(&vec![2, 9], 5), vec![1, 0]);
    assert_eq!(rank_top(&vec![7], usize::MAX), vec![0]);
    assert!(rank_top(&Vec::new(), 5).is_empty());
}

#[test]
fn rank_top_keeps_the_order_of_equally_similar_documents() {
    assert_eq!(rank_top(&vec![7, 9, 7, 9, 7], 5), vec![1, 3, 0, 2, 4]);
    assert_eq!(rank_top(&vec![7, 9, 7, 9, 7], 3), vec![1, 3, 0]);
    assert_eq!(rank_top(&vec![4, 4, 4, 4], 2), vec![0, 1]);
}

#[test]
fn rank_top_agrees_with_a_stable_sort() {
    let scores: Vec<u64> = (0..200u64).map(|i| (i * 7919 + 13) % 23).collect();
    let mut expected: Vec<usize> = (0..scores.len()).collect();
    expected.sort_by(|a, b| scores[*b].cmp(&scores[*a]));
    for limit in [0, 1, 5, 50, 200, 300] {
        let cut = limit.min(scores.len());
        assert_eq!(rank_top(&scores, limit), expected[..cut].to_vec());
    }
}

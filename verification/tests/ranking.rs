use fastembed_vectorstore::ranking::top_k;

fn bits(v: &[f32]) -> Vec<u32> {
    v.iter().map(|x| x.to_bits()).collect()
}

#[test]
fn top_k_lists_best_first() {
    let scores = bits(&[1.0, 3.0, 2.0]);
    assert_eq!(top_k(&scores, 2), vec![1, 2]);
    assert_eq!(top_k(&scores, 3), vec![1, 2, 0]);
}

#[test]
fn top_k_of_zero_is_empty() {
    assert_eq!(top_k(&bits(&[1.0, 3.0, 2.0]), 0), Vec::<usize>::new());
    assert_eq!(top_k(&Vec::new(), 0), Vec::<usize>::new());
}

#[test]
fn top_k_beyond_the_items_lists_all() {
    assert_eq!(top_k(&bits(&[0.25, -0.5, 0.75]), 10), vec![2, 0, 1]);
    assert_eq!(top_k(&bits(&[0.25, -0.5, 0.75]), usize::MAX), vec![2, 0, 1]);
    assert_eq!(top_k(&Vec::new(), 4), Vec::<usize>::new());
}

#[test]
fn level_scores_keep_their_order() {
    let scores = bits(&[0.5, 0.9, 0.5, 0.9, 0.5]);
    assert_eq!(top_k(&scores, 5), vec![1, 3, 0, 2, 4]);
    assert_eq!(top_k(&scores, 3), vec![1, 3, 0]);
    assert_eq!(top_k(&bits(&[0.0, -0.0, 0.0]), 3), vec![0, 1, 2]);
}

#[test]
fn negative_scores_rank_by_value() {
    let scores = bits(&[-0.1, -0.9, -0.5, 0.0]);
    assert_eq!(top_k(&scores, 4), vec![3, 0, 2, 1]);
}

#[test]
fn scores_that_are_no_numbers_come_last() {
    let scores = bits(&[f32::NAN, -1.0, f32::NEG_INFINITY, 1.0, f32::NAN]);
    assert_eq!(top_k(&scores, 5), vec![3, 1, 2, 0, 4]);
    assert_eq!(top_k(&scores, 3), vec![3, 1, 2]);
}

#[test]
fn ranking_agrees_with_a_stable_sort() {
    let mut seed: u32 = 12345;
    for n in 0..40usize {
        let mut scores = Vec::new();
        for _ in 0..n {
            seed = seed.wrapping_mul(1664525).wrapping_add(1013904223);
            scores.push((((seed >> 8) % 21) as f32 - 10.0) / 10.0);
        }
        let mut expected: Vec<usize> = (0..n).collect();
        expected.sort_by(|a, b| scores[*b].partial_cmp(&scores[*a]).unwrap());
        for k in [0, 1, n / 2, n, n + 3] {
            let mut want = expected.clone();
            want.truncate(k);
            assert_eq!(top_k(&bits(&scores), k), want);
        }
    }
}

use fastembed_vectorstore::error::ConstructError;
use fastembed_vectorstore::index::EmbeddingIndex;
use fastembed_vectorstore::persistence::{save_advance, save_begin, FileRead, SaveStep};
use std::collections::HashMap;

fn bits(v: &[f32]) -> Vec<u32> {
    v.iter().map(|x| x.to_bits()).collect()
}

/// Runs a save whose three steps go as told and returns the flag it ends with.
fn run_save(serialized: bool, directory: bool, written: bool) -> (bool, Vec<SaveStep>) {
    let mut taken = Vec::new();
    let mut step = save_begin();
    loop {
        let ok = match step {
            SaveStep::Serialize => serialized,
            SaveStep::EnsureDirectory => directory,
            SaveStep::Write => written,
            SaveStep::Finished(flag) => return (flag, taken),
        };
        taken.push(step);
        step = save_advance(step, ok);
    }
}

#[test]
fn load_of_a_missing_file_is_not_found() {
    let loaded = EmbeddingIndex::load(FileRead::Missing);
    assert_eq!(loaded.err(), Some(ConstructError::NotFound));
}

#[test]
fn load_of_a_malformed_file_is_a_parse_failure() {
    let loaded = EmbeddingIndex::load(FileRead::Malformed);
    assert_eq!(loaded.err(), Some(ConstructError::Malformed));
}

#[test]
fn load_holds_the_pairs_read() {
    let pairs = vec![
        ("cat".to_string(), bits(&[1.0, 0.0])),
        ("dog".to_string(), bits(&[0.0, 1.0])),
    ];
    let index = EmbeddingIndex::load(FileRead::Entries(pairs.clone())).ok().unwrap();
    assert_eq!(index.len(), 2);
    assert_eq!(index.get("cat"), Some(bits(&[1.0, 0.0])));
    assert_eq!(index.get("dog"), Some(bits(&[0.0, 1.0])));
    assert_eq!(index.entries(), pairs);
}

#[test]
fn load_of_no_pairs_is_an_empty_index() {
    let index = EmbeddingIndex::load(FileRead::Entries(Vec::new())).ok().unwrap();
    assert_eq!(index.len(), 0);
}

#[test]
fn load_lets_the_later_pair_win() {
    let index = EmbeddingIndex::load(FileRead::Entries(vec![
        ("a".to_string(), vec![1]),
        ("b".to_string(), vec![2]),
        ("a".to_string(), vec![3]),
    ]))
    .ok()
    .unwrap();
    assert_eq!(index.len(), 2);
    assert_eq!(index.get("a"), Some(vec![3]));
    assert_eq!(index.get("b"), Some(vec![2]));
}

#[test]
fn load_does_not_hold_vector_lengths_against_each_other() {
    let index = EmbeddingIndex::load(FileRead::Entries(vec![
        ("a".to_string(), vec![1]),
        ("b".to_string(), vec![2, 3, 4]),
    ]))
    .ok()
    .unwrap();
    assert_eq!(index.get("a"), Some(vec![1]));
    assert_eq!(index.get("b"), Some(vec![2, 3, 4]));
}

#[test]
fn entries_loaded_again_give_the_same_index() {
    let mut index = EmbeddingIndex::new();
    assert!(index.insert_embedded(
        vec!["cat".to_string(), "dog".to_string(), "cat".to_string(), "".to_string()],
        Some(vec![
            bits(&[1.0, 0.0]),
            bits(&[0.0, 1.0]),
            bits(&[0.1, -0.2]),
            vec![f32::NAN.to_bits(), 0xffff_ffff],
        ])
    ));
    let again = EmbeddingIndex::load(FileRead::Entries(index.entries())).ok().unwrap();
    assert_eq!(again.len(), index.len());
    assert_eq!(again.entries(), index.entries());
    for document in index.documents() {
        assert_eq!(again.get(&document), index.get(&document));
    }
}

#[test]
fn entries_loaded_in_another_order_give_the_same_mapping() {
    let mut index = EmbeddingIndex::new();
    assert!(index.insert_embedded(
        vec!["a".to_string(), "b".to_string(), "c".to_string()],
        Some(vec![vec![1], vec![2], vec![3]])
    ));
    let mut pairs = index.entries();
    pairs.reverse();
    let again = EmbeddingIndex::load(FileRead::Entries(pairs)).ok().unwrap();
    assert_eq!(again.len(), 3);
    for document in index.documents() {
        assert_eq!(again.get(&document), index.get(&document));
    }
}

#[test]
fn saved_text_read_back_gives_the_same_index() {
    let mut index = EmbeddingIndex::new();
    assert!(index.insert_embedded(
        vec!["cat".to_string(), "dog \"quoted\"\n".to_string(), "été".to_string()],
        Some(vec![
            bits(&[1.0, 0.0, -0.0]),
            bits(&[0.1, 1.0e-38, 3.4028235e38]),
            bits(&[-0.33333334, 1.17549435e-38, 16777217.0]),
        ])
    ));
    let map: HashMap<String, Vec<f32>> = index
        .entries()
        .into_iter()
        .map(|(d, v)| (d, v.into_iter().map(f32::from_bits).collect()))
        .collect();
    let text = serde_json::to_string_pretty(&map).unwrap();
    let parsed: HashMap<String, Vec<f32>> = serde_json::from_str(&text).unwrap();
    let pairs = parsed
        .into_iter()
        .map(|(d, v)| (d, v.into_iter().map(|x| x.to_bits()).collect()))
        .collect();
    let again = EmbeddingIndex::load(FileRead::Entries(pairs)).ok().unwrap();
    assert_eq!(again.len(), 3);
    for document in index.documents() {
        assert_eq!(again.get(&document), index.get(&document));
    }
}

#[test]
fn save_takes_its_steps_in_order() {
    assert_eq!(save_begin(), SaveStep::Serialize);
    assert_eq!(save_advance(SaveStep::Serialize, true), SaveStep::EnsureDirectory);
    assert_eq!(save_advance(SaveStep::EnsureDirectory, true), SaveStep::Write);
    assert_eq!(save_advance(SaveStep::Write, true), SaveStep::Finished(true));
    let (flag, taken) = run_save(true, true, true);
    assert!(flag);
    assert_eq!(taken, vec![SaveStep::Serialize, SaveStep::EnsureDirectory, SaveStep::Write]);
}

#[test]
fn save_ends_at_the_first_failure() {
    assert_eq!(save_advance(SaveStep::Serialize, false), SaveStep::Finished(false));
    assert_eq!(save_advance(SaveStep::EnsureDirectory, false), SaveStep::Finished(false));
    assert_eq!(save_advance(SaveStep::Write, false), SaveStep::Finished(false));
    assert_eq!(run_save(false, true, true), (false, vec![SaveStep::Serialize]));
    assert_eq!(
        run_save(true, false, true),
        (false, vec![SaveStep::Serialize, SaveStep::EnsureDirectory])
    );
    assert_eq!(
        run_save(true, true, false),
        (false, vec![SaveStep::Serialize, SaveStep::EnsureDirectory, SaveStep::Write])
    );
}

#[test]
fn save_succeeds_only_when_every_step_did() {
    for serialized in [false, true] {
        for directory in [false, true] {
            for written in [false, true] {
                let (flag, _) = run_save(serialized, directory, written);
                assert_eq!(flag, serialized && directory && written);
            }
        }
    }
}

#[test]
fn finished_save_stays_finished() {
    for flag in [false, true] {
        for ok in [false, true] {
            assert_eq!(save_advance(SaveStep::Finished(flag), ok), SaveStep::Finished(flag));
        }
    }
}

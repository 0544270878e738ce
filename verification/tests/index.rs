use nearest_address::{Candidate, MyPoint, SpatialIndex};

fn record(code: &str, name: &str) -> MyPoint {
    MyPoint { lat: 0, lon: 0, citycode: code.to_string(), name: name.to_string() }
}

fn three() -> SpatialIndex {
    SpatialIndex::build(vec![record("a", "first"), record("b", "second"), record("c", "third")])
}

fn at(slot: usize, distance: u64) -> Candidate {
    Candidate { slot, distance }
}

#[test]
fn build_keeps_order_and_size() {
    let index = three();
    assert_eq!(index.size(), 3);
    assert_eq!(index.records().len(), 3);
    assert_eq!(index.records()[0].name, "first");
    assert_eq!(index.records()[1].name, "second");
    assert_eq!(index.records()[2].name, "third");
}

#[test]
fn build_of_nothing_is_a_valid_empty_table() {
    let index = SpatialIndex::build(Vec::new());
    assert_eq!(index.size(), 0);
    assert!(index.records().is_empty());
}

#[test]
fn nearest_without_candidates_is_none() {
    assert_eq!(three().nearest(&Vec::new()), None);
}

#[test]
fn nearest_on_empty_table_is_none_for_every_candidate_list() {
    let index = SpatialIndex::build(Vec::new());
    assert_eq!(index.nearest(&Vec::new()), None);
    assert_eq!(index.nearest(&vec![at(0, 0)]), None);
    assert_eq!(index.nearest(&vec![at(0, 7), at(1, 3), at(usize::MAX, 0)]), None);
}

#[test]
fn nearest_takes_the_single_candidate() {
    let index = three();
    assert_eq!(index.nearest(&vec![at(1, 99)]).unwrap().name, "second");
}

#[test]
fn nearest_takes_the_smallest_distance() {
    let index = three();
    assert_eq!(index.nearest(&vec![at(0, 30), at(1, 10), at(2, 20)]).unwrap().name, "second");
    assert_eq!(index.nearest(&vec![at(2, 1), at(1, 10), at(0, 20)]).unwrap().name, "third");
    assert_eq!(index.nearest(&vec![at(1, 10), at(2, 20), at(0, 9)]).unwrap().name, "first");
}

#[test]
fn nearest_breaks_ties_by_build_order() {
    let index = three();
    assert_eq!(index.nearest(&vec![at(2, 5), at(1, 5), at(0, 5)]).unwrap().name, "first");
    assert_eq!(index.nearest(&vec![at(2, 5), at(1, 5), at(0, 6)]).unwrap().name, "second");
    assert_eq!(index.nearest(&vec![at(1, 5), at(2, 5)]).unwrap().name, "second");
}

#[test]
fn nearest_passes_over_candidates_that_name_no_record() {
    let index = three();
    assert_eq!(index.nearest(&vec![at(3, 0), at(2, 8)]).unwrap().name, "third");
    assert_eq!(index.nearest(&vec![at(3, 0), at(usize::MAX, 0)]), None);
}

#[test]
fn nearest_with_a_candidate_at_distance_zero_is_at_distance_zero() {
    let index = three();
    let candidates = vec![at(2, 4), at(1, 0), at(0, 1)];
    assert_eq!(index.nearest(&candidates).unwrap().name, "second");
    let candidates = vec![at(2, 0), at(1, 0), at(0, 1)];
    assert_eq!(index.nearest(&candidates).unwrap().name, "second");
}

#[test]
fn nearest_orders_by_the_whole_distance() {
    let index = three();
    let candidates = vec![at(0, u64::MAX), at(1, u64::MAX - 1), at(2, 1 << 63)];
    assert_eq!(index.nearest(&candidates).unwrap().name, "third");
}

#[test]
fn nearest_gives_the_same_answer_every_time() {
    let index = three();
    let candidates = vec![at(2, 5), at(0, 5), at(1, 6)];
    let first = index.nearest(&candidates).cloned();
    for _ in 0..10 {
        assert_eq!(index.nearest(&candidates).cloned(), first);
    }
    let again = three();
    assert_eq!(again.nearest(&candidates.clone()).cloned(), first);
}

#[test]
fn nearest_over_every_record_is_the_minimum_of_a_scan() {
    let names = ["r0", "r1", "r2", "r3", "r4", "r5", "r6"];
    let index = SpatialIndex::build(names.iter().map(|n| record("", n)).collect());
    let mut seed: u64 = 0x2545_f491_4f6c_dd1d;
    for _ in 0..200 {
        let mut candidates = Vec::new();
        let mut expected = 0usize;
        let mut least = u64::MAX;
        for slot in 0..names.len() {
            seed = seed.wrapping_mul(6364136223846793005).wrapping_add(1442695040888963407);
            let distance = (seed >> 33) % 5;
            if distance < least {
                least = distance;
                expected = slot;
            }
            candidates.push(at(slot, distance));
        }
        candidates.reverse();
        assert_eq!(index.nearest(&candidates).unwrap().name, names[expected]);
    }
}

use hush::merge::{chronological_order, final_positions, gather, split_by_bucket};
use hush::streaming::Utterance;

fn make(text: &str, start: u64, end: u64, is_final: bool, label: &str) -> Utterance {
    Utterance {
        text: text.to_owned(),
        started_at_ms: start,
        ended_at_ms: end,
        is_final,
        speaker_label: Some(label.to_owned()),
    }
}

#[test]
fn merge_orders_sources_chronologically() {
    let buckets = vec![
        vec![make("mic-200", 200, 280, true, "mic"), make("mic-400", 400, 480, true, "mic")],
        vec![make("sys-100", 100, 180, true, "system"), make("sys-300", 300, 380, true, "system")],
    ];
    let order = chronological_order(&buckets);
    assert_eq!(order, vec![(1, 0), (0, 0), (1, 1), (0, 1)]);
    let chron = gather(&buckets, &order);
    let starts: Vec<u64> = chron.iter().map(|u| u.started_at_ms).collect();
    assert_eq!(starts, vec![100, 200, 300, 400]);
}

#[test]
fn equal_start_times_keep_assembly_order() {
    let buckets = vec![
        vec![make("a", 100, 150, true, "mic")],
        vec![make("b", 100, 150, true, "system"), make("c", 50, 90, true, "system")],
    ];
    assert_eq!(chronological_order(&buckets), vec![(1, 1), (0, 0), (1, 0)]);
}

#[test]
fn empty_buckets_give_empty_order() {
    let none: Vec<Vec<Utterance>> = vec![];
    assert!(chronological_order(&none).is_empty());
    assert!(chronological_order(&vec![vec![], vec![]]).is_empty());
}

#[test]
fn only_finals_are_picked_for_the_diarizer() {
    let utts = vec![
        make("p", 0, 10, false, "mic"),
        make("f1", 10, 20, true, "mic"),
        make("p2", 20, 30, false, "system"),
        make("f2", 30, 40, true, "system"),
    ];
    assert_eq!(final_positions(&utts), vec![1, 3]);
    assert!(final_positions(&vec![]).is_empty());
}

#[test]
fn split_returns_each_source_in_chronological_order() {
    let buckets = vec![
        vec![make("m2", 400, 480, true, "mic"), make("m1", 200, 280, true, "mic")],
        vec![make("s1", 100, 180, true, "system")],
    ];
    let order = chronological_order(&buckets);
    let chron = gather(&buckets, &order);
    let split = split_by_bucket(&order, &chron, 2);
    assert_eq!(split.len(), 2);
    let mic: Vec<&str> = split[0].iter().map(|u| u.text.as_str()).collect();
    let sys: Vec<&str> = split[1].iter().map(|u| u.text.as_str()).collect();
    assert_eq!(mic, vec!["m1", "m2"]);
    assert_eq!(sys, vec!["s1"]);
}

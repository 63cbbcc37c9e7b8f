use chartistry::layout::tick_labels::{align_tick_labels, longest_label_len, tick_label_chars};

fn strings(labels: &[&str]) -> Vec<String> {
    labels.iter().map(|s| s.to_string()).collect()
}

#[test]
fn labels_are_padded_to_the_longest() {
    let aligned = align_tick_labels(strings(&["0", "50", "100"]));
    assert_eq!(aligned, strings(&["  0", " 50", "100"]));
    assert!(aligned.iter().all(|l| l.len() == 3));
}

#[test]
fn aligning_nothing_gives_nothing() {
    assert_eq!(align_tick_labels(vec![]), Vec::<String>::new());
    assert_eq!(align_tick_labels(strings(&["", ""])), strings(&["", ""]));
}

#[test]
fn label_lengths_count_bytes() {
    // "é" takes two bytes
    let labels = strings(&["é", "abc"]);
    assert_eq!(longest_label_len(&labels), 3);
    assert_eq!(align_tick_labels(labels), strings(&[" é", "abc"]));
}

#[test]
fn label_column_is_at_least_min_chars() {
    let labels = strings(&["-10", "5"]);
    assert_eq!(tick_label_chars(&labels, 0), 3);
    assert_eq!(tick_label_chars(&labels, 6), 6);
    assert_eq!(tick_label_chars(&vec![], 2), 2);
}

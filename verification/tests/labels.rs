use webview_host::labels::{label_of, LABEL, SLOT};

#[test]
fn labels_are_one_based() {
    assert_eq!(label_of(0), "web-1");
    assert_eq!(label_of(1), "web-2");
}

#[test]
fn first_label_is_the_window_label() {
    assert_eq!(label_of(0), LABEL);
    assert_eq!(SLOT, 1);
}

#[test]
fn labels_are_decimal_and_distinct() {
    assert_eq!(label_of(9), "web-10");
    assert_eq!(label_of(98), "web-99");
    assert_eq!(label_of(1233), "web-1234");
    assert_eq!(label_of(usize::MAX - 1), format!("web-{}", usize::MAX));
    let labels: Vec<String> = (0..200).map(label_of).collect();
    for i in 0..labels.len() {
        for j in (i + 1)..labels.len() {
            assert_ne!(labels[i], labels[j]);
        }
    }
}

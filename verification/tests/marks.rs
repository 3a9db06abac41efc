use c2rust_core::marks::{mark_before, MarkRegistry};
use c2rust_core::text::{digit, label_lt, push_digits};

fn decimal(n: u64) -> String {
    let mut text = String::new();
    push_digits(&mut text, n, 10);
    text
}

fn pairs(items: &[(usize, &str)]) -> Vec<(usize, String)> {
    items.iter().map(|(id, label)| (*id, label.to_string())).collect()
}

#[test]
fn registry_holds_each_pair_once() {
    let mut marks = MarkRegistry::new();
    assert_eq!(marks.snapshot(), vec![]);
    marks.add(7, "target".to_string());
    marks.add(7, "target".to_string());
    marks.add(2, "target".to_string());
    marks.add(7, "arg".to_string());
    assert_eq!(marks.snapshot(), pairs(&[(2, "target"), (7, "arg"), (7, "target")]));
    assert_eq!(marks.ids(), vec![2, 7]);
    assert_eq!(marks.get(7), vec!["arg".to_string(), "target".to_string()]);
    assert_eq!(marks.get(2), vec!["target".to_string()]);
    assert_eq!(marks.get(3), Vec::<String>::new());
}

#[test]
fn remove_drops_every_mark_of_the_node_and_no_other() {
    let mut marks = MarkRegistry::from_pairs(&pairs(&[(5, "b"), (1, "a"), (5, "a"), (9, "c"), (5, "b")]));
    assert_eq!(marks.snapshot(), pairs(&[(1, "a"), (5, "a"), (5, "b"), (9, "c")]));
    marks.remove(5);
    assert_eq!(marks.snapshot(), pairs(&[(1, "a"), (9, "c")]));
    assert_eq!(marks.get(5), Vec::<String>::new());
    assert_eq!(marks.ids(), vec![1, 9]);
    marks.remove(5);
    marks.remove(4);
    assert_eq!(marks.snapshot(), pairs(&[(1, "a"), (9, "c")]));
    marks.remove(1);
    marks.remove(9);
    assert_eq!(marks.ids(), Vec::<usize>::new());
}

#[test]
fn labels_are_ordered_by_code_point() {
    assert!(label_lt("a", "b"));
    assert!(!label_lt("b", "a"));
    assert!(!label_lt("a", "a"));
    assert!(label_lt("", "a"));
    assert!(!label_lt("", ""));
    assert!(label_lt("ab", "abc"));
    assert!(!label_lt("abc", "ab"));
    assert!(label_lt("Z", "a"));
    assert!(label_lt("abd", "b"));
    assert!(label_lt("z", "\u{e9}"));
    assert!(label_lt("\u{e9}", "\u{4e2d}"));
    assert!(label_lt("\u{ffff}", "\u{10000}"));
    let mut labels = vec!["b", "", "\u{e9}", "ab", "a", "B", "abc"];
    labels.sort();
    for i in 0..labels.len() {
        for j in 0..labels.len() {
            assert_eq!(label_lt(labels[i], labels[j]), i < j);
        }
    }
}

#[test]
fn marks_are_ordered_by_node_then_label() {
    assert!(mark_before(1, "z", 2, "a"));
    assert!(!mark_before(2, "a", 1, "z"));
    assert!(mark_before(2, "a", 2, "b"));
    assert!(!mark_before(2, "b", 2, "b"));
}

#[test]
fn numbers_are_written_without_leading_zeros() {
    assert_eq!(decimal(0), "0");
    assert_eq!(decimal(7), "7");
    assert_eq!(decimal(10), "10");
    assert_eq!(decimal(4096), "4096");
    assert_eq!(decimal(u64::MAX), "18446744073709551615");
    let mut text = "0x".to_string();
    push_digits(&mut text, 0xdead_beef, 16);
    assert_eq!(text, "0xdeadbeef");
    let mut octal = String::new();
    push_digits(&mut octal, 0o755, 8);
    push_digits(&mut octal, 0, 8);
    assert_eq!(octal, "7550");
    let mut binary = String::new();
    push_digits(&mut binary, 5, 2);
    assert_eq!(binary, "101");
    assert_eq!(digit(0), '0');
    assert_eq!(digit(9), '9');
    assert_eq!(digit(10), 'a');
    assert_eq!(digit(15), 'f');
}

use cursor::diff::{completion_from_diff, diff_clusters, Insertion};

fn pairs(edits: &[Insertion]) -> Vec<(usize, &str)> {
    edits.iter().map(|edit| (edit.offset, edit.text.as_str())).collect()
}

/// The buffer, which starts at byte `position`, after the insertions.
fn apply(buffer: &str, position: usize, edits: &[Insertion]) -> String {
    let mut text = buffer.to_string();
    for edit in edits.iter().rev() {
        text.insert_str(edit.offset - position, &edit.text);
    }
    text
}

#[test]
fn missing_pieces_are_inserted() {
    let edits = completion_from_diff("foo(a)", "foo(a, b);", 10);
    assert_eq!(pairs(&edits), [(15, ", b"), (16, ";")]);
    assert_eq!(apply("foo(a)", 10, &edits), "foo(a, b);");
}

#[test]
fn empty_buffer_takes_the_whole_completion() {
    let edits = completion_from_diff("", "let x = 1;", 7);
    assert_eq!(pairs(&edits), [(7, "let x = 1;")]);
}

#[test]
fn rest_of_the_completion_follows_its_beginning() {
    let edits = completion_from_diff("let ", "let x = 1;", 3);
    assert_eq!(pairs(&edits), [(7, "x = 1;")]);
}

#[test]
fn same_text_needs_nothing() {
    assert!(completion_from_diff("same", "same", 0).is_empty());
    assert!(completion_from_diff("", "", 4).is_empty());
}

#[test]
fn text_before_the_buffer_is_inserted_at_its_start() {
    let edits = completion_from_diff(")", "x)", 5);
    assert_eq!(pairs(&edits), [(5, "x")]);
}

#[test]
fn nothing_more_is_inserted_after_a_cluster_that_is_not_met() {
    let edits = completion_from_diff("abz", "axbyc", 0);
    assert_eq!(pairs(&edits), [(1, "x")]);
    assert_eq!(apply("abz", 0, &edits), "axbz");
    assert!(completion_from_diff("z", "abc", 0).is_empty());
    assert!(completion_from_diff("abc", "", 0).is_empty());
    assert!(completion_from_diff("ab", "a", 0).is_empty());
}

#[test]
fn each_cluster_is_met_by_the_next_equal_one() {
    let edits = completion_from_diff("ab", "aab", 0);
    assert_eq!(pairs(&edits), [(1, "a")]);
    let edits = completion_from_diff("ba", "aba", 0);
    assert_eq!(pairs(&edits), [(0, "a")]);
}

#[test]
fn offsets_count_bytes() {
    let edits = completion_from_diff("äö", "ä-ö+", 100);
    assert_eq!(pairs(&edits), [(102, "-"), (104, "+")]);
    assert_eq!(apply("äö", 100, &edits), "ä-ö+");
}

#[test]
fn clusters_are_kept_whole() {
    // An e followed by a combining accent is one cluster, and not the cluster e.
    assert!(completion_from_diff("e", "e\u{301}", 0).is_empty());
    let edits = completion_from_diff("e\u{301}", "xe\u{301}e", 0);
    assert_eq!(pairs(&edits), [(0, "x"), (3, "e")]);
    // A carriage return and the newline behind it are one cluster.
    assert!(completion_from_diff("\n", "\r\n", 0).is_empty());
    let family = "\u{1f468}\u{200d}\u{1f469}\u{200d}\u{1f467}";
    let edits = completion_from_diff(family, &format!("a{}b", family), 2);
    assert_eq!(pairs(&edits), [(2, "a"), (20, "b")]);
}

#[test]
fn insertions_stand_in_order_inside_the_buffer() {
    let buffer = "fn f(x) { x }";
    let completion = "pub fn f(x: u32) -> u32 { x + 1 }\n";
    let edits = completion_from_diff(buffer, completion, 40);
    assert!(edits.iter().all(|edit| !edit.text.is_empty()));
    assert!(edits.iter().all(|edit| 40 <= edit.offset && edit.offset <= 40 + buffer.len()));
    assert!(edits.windows(2).all(|pair| pair[0].offset < pair[1].offset));
    assert_eq!(apply(buffer, 40, &edits), completion);
}

#[test]
fn clusters_can_be_given() {
    let clusters = |text: &str| text.chars().map(String::from).collect::<Vec<String>>();
    let edits = diff_clusters(&clusters("abcd"), &clusters("bd"), 1);
    assert_eq!(pairs(&edits), [(1, "a"), (2, "c")]);
    let edits = diff_clusters(&clusters("abcd"), &clusters("dx"), 0);
    assert_eq!(pairs(&edits), [(0, "abc")]);
}

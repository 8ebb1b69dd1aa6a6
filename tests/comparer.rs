use text_diff::vector_comparer::{IVectorComparer, VectorComparer};

fn lines(v: &[&str]) -> Vec<String> {
    v.iter().map(|s| s.to_string()).collect()
}

fn diff(a: &[&str], b: &[&str]) -> Vec<String> {
    let comparer: VectorComparer<String> = IVectorComparer::<String>::new(lines(a), lines(b));
    comparer.get_differences()
}

#[test]
fn empty_second_yields_first() {
    assert_eq!(diff(&["a", "b", "a"], &[]), lines(&["a", "b", "a"]));
}

#[test]
fn empty_first_yields_second() {
    assert_eq!(diff(&[], &["b", "b", "c"]), lines(&["b", "b", "c"]));
}

#[test]
fn both_empty_yields_empty() {
    assert_eq!(diff(&[], &[]), Vec::<String>::new());
}

#[test]
fn empty_side_is_a_plain_copy() {
    let a = lines(&["z", "", "z", "y"]);
    let comparer: VectorComparer<String> = IVectorComparer::<String>::new(a.clone(), vec![]);
    assert_eq!(comparer.get_differences(), a);
}

#[test]
fn disjoint_inputs_keep_first_and_dedup_second() {
    assert_eq!(
        diff(&["a", "b", "a"], &["c", "d", "c", "d", "e"]),
        lines(&["a", "b", "a", "c", "d", "e"])
    );
}

#[test]
fn equal_inputs_have_no_differences() {
    let a = &["one", "two", "two", "three"];
    assert_eq!(diff(a, a), Vec::<String>::new());
}

#[test]
fn membership_is_existential() {
    assert_eq!(diff(&["x", "y", "x"], &["x"]), lines(&["y"]));
}

#[test]
fn second_side_dedups_against_first_side_output() {
    assert_eq!(
        diff(&["a", "q", "q"], &["a", "q2", "r", "q2"]),
        lines(&["q", "q", "q2", "r"])
    );
}

#[test]
fn comparison_is_exact_on_text() {
    assert_eq!(diff(&["A", "b "], &["a", "b"]), lines(&["A", "b ", "a", "b"]));
}

#[test]
fn order_does_not_matter_for_membership() {
    assert_eq!(diff(&["a", "b"], &["b", "a"]), Vec::<String>::new());
}

#[test]
fn fields_hold_the_inputs() {
    let comparer: VectorComparer<String> =
        IVectorComparer::<String>::new(lines(&["a"]), lines(&["b"]));
    assert_eq!(comparer.vec1, lines(&["a"]));
    assert_eq!(comparer.vec2, lines(&["b"]));
}

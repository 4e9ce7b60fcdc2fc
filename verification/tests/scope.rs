use azidentity::scope::canonical_scopes;

fn strings(texts: &[&str]) -> Vec<String> {
    texts.iter().map(|text| text.to_string()).collect()
}

#[test]
fn scopes_are_sorted_by_their_bytes_and_occur_once() {
    let cases: Vec<Vec<&str>> = vec![
        vec![],
        vec![""],
        vec!["a"],
        vec!["b", "a"],
        vec!["a", "b", "a", "b"],
        vec!["ab", "a", "abc", ""],
        vec!["B", "a", "A", "b"],
        vec!["z", "\u{e9}", "\u{ffff}", "\u{10000}", "e"],
        vec!["https://vault.azure.net/.default", "https://management.azure.com/.default"],
    ];
    for case in cases {
        let mut expected = strings(&case);
        expected.sort_unstable();
        expected.dedup();
        assert_eq!(canonical_scopes(strings(&case)), expected);
    }
}

#[test]
fn the_canonical_form_of_a_canonical_form_is_itself() {
    let once = canonical_scopes(strings(&["c", "a", "b", "a"]));
    assert_eq!(once, strings(&["a", "b", "c"]));
    assert_eq!(canonical_scopes(once.clone()), once);
}

#[test]
fn the_canonical_form_ignores_order_and_repetition() {
    let form = canonical_scopes(strings(&["x", "y"]));
    assert_eq!(canonical_scopes(strings(&["y", "x", "y"])), form);
    assert_ne!(canonical_scopes(strings(&["y", "z"])), form);
}

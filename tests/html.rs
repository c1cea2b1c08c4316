use box_kernel::html::create_html_table;

fn texts(items: &[&str]) -> Vec<String> {
    items.iter().map(|t| t.to_string()).collect()
}

#[test]
fn no_result_renders_nothing() {
    assert_eq!(create_html_table(None, &vec![], Some(10), &texts(&["x"])), "");
}

#[test]
fn table_with_classes_and_row_limit() {
    let columns = texts(&["a", "b"]);
    let rows = vec![texts(&["1", "2"]), texts(&["3", "4"]), texts(&["5", "6"])];
    let html = create_html_table(Some(&columns), &rows, Some(2), &texts(&["tex2jax_ignore", "wide"]));
    assert_eq!(
        html,
        "<table class=\"tex2jax_ignore wide\"><thead><tr><th>a</th><th>b</th></tr></thead><tbody><tr><td>1</td><td>2</td></tr><tr><td>3</td><td>4</td></tr></tbody></table>"
    );
}

#[test]
fn table_without_classes_or_limit() {
    let columns = texts(&["n"]);
    let rows = vec![texts(&["1"]), texts(&["2"])];
    let html = create_html_table(Some(&columns), &rows, None, &vec![]);
    assert_eq!(
        html,
        "<table><thead><tr><th>n</th></tr></thead><tbody><tr><td>1</td></tr><tr><td>2</td></tr></tbody></table>"
    );
    let empty = create_html_table(Some(&columns), &vec![], Some(0), &vec![]);
    assert_eq!(empty, "<table><thead><tr><th>n</th></tr></thead><tbody></tbody></table>");
}

use tw_components::markdown::string_to_html;

#[test]
fn heading_becomes_h1() {
    let html = string_to_html("# Hello World".to_string());
    assert_eq!(html, "<h1>Hello World</h1>\n");
}

#[test]
fn empty_input_gives_empty_output() {
    assert_eq!(string_to_html(String::new()), "");
}

#[test]
fn emphasis_and_paragraphs() {
    let html = string_to_html("plain *soft* **loud**".to_string());
    assert_eq!(html, "<p>plain <em>soft</em> <strong>loud</strong></p>\n");
}

#[test]
fn strikethrough_extension_is_enabled() {
    let html = string_to_html("~~gone~~".to_string());
    assert_eq!(html, "<p><del>gone</del></p>\n");
}

#[test]
fn tables_extension_is_enabled() {
    let html = string_to_html("|a|b|\n|-|-|\n|1|2|".to_string());
    assert!(html.contains("<table>"));
    assert!(html.contains("<td>1</td>"));
}

use ssg::model::{Content, Element, IntoContent, Node};

fn content_html(content: &Content) -> String {
    let mut output = Vec::new();
    content.write_to(&mut output);
    String::from_utf8(output).unwrap()
}

fn element_html(element: &Element) -> String {
    let mut output = Vec::new();
    element.write_to(&mut output);
    String::from_utf8(output).unwrap()
}

#[test]
fn element_should_write_html_code() {
    let element = Element {
        name: "p",
        attributes: vec![("class", "class")],
        content: Content::from(vec![
            Node::Element(Element {
                name: "strong",
                attributes: Vec::new(),
                content: Content::from(vec![Node::Text("This is a paragraph.")]),
            }),
            Node::Element(Element {
                name: "br",
                attributes: Vec::new(),
                content: Content::new(),
            }),
        ]),
    };

    let mut output = Vec::new();
    element.write_to(&mut output);

    let expected = "\
        <p class=\"class\">\
            <strong>This is a paragraph.</strong>\
            <br />\
        </p>\
    ";

    println!("expected: {}", expected);
    println!("actual: {}", String::from_utf8(output.clone()).unwrap());

    assert_eq!(output, expected.as_bytes().to_vec());
}

#[test]
fn empty_element_closes_itself_after_attributes() {
    let element = Element {
        name: "img",
        attributes: vec![("src", "a.png"), ("alt", "A")],
        content: Content::new(),
    };
    let html = element_html(&element);
    assert_eq!(html, "<img src=\"a.png\" alt=\"A\" />");
    assert!(!html.contains("</img>"));
}

#[test]
fn element_without_attributes_or_children() {
    let element = Element { name: "br", attributes: Vec::new(), content: Content::new() };
    assert_eq!(element_html(&element), "<br />");
}

#[test]
fn serializing_twice_gives_the_same_bytes() {
    let element = Element {
        name: "div",
        attributes: vec![("id", "main")],
        content: ("Hello, ", Element { name: "em", attributes: Vec::new(), content: "world".into_content() }).into_content(),
    };
    let mut first = Vec::new();
    element.write_to(&mut first);
    let mut second = Vec::new();
    element.write_to(&mut second);
    assert_eq!(first, second);
    assert_eq!(String::from_utf8(first).unwrap(), "<div id=\"main\">Hello, <em>world</em></div>");
}

#[test]
fn pair_serializes_as_concatenation() {
    let a = || Element { name: "b", attributes: Vec::new(), content: "x".into_content() };
    let b = || vec!["y", "z"];
    let pair = content_html(&(a(), b()).into_content());
    let left = content_html(&a().into_content());
    let right = content_html(&b().into_content());
    assert_eq!(pair, format!("{}{}", left, right));
    assert_eq!(pair, "<b>x</b>yz");
}

#[test]
fn empty_tuple_contributes_nothing() {
    let empty = ().into_content();
    assert!(empty.is_empty());
    assert_eq!(content_html(&empty), "");
    let pair = content_html(&((), "a").into_content());
    assert_eq!(pair, "a");
}

#[test]
fn tuples_keep_order_up_to_six() {
    let content = ("1", "2", "3", "4", "5", "6").into_content();
    assert_eq!(content_html(&content), "123456");
    let content = ("1", "2", "3", "4", "5").into_content();
    assert_eq!(content_html(&content), "12345");
    let content = ("1", "2", "3", "4").into_content();
    assert_eq!(content_html(&content), "1234");
    let content = ("1", "2", "3").into_content();
    assert_eq!(content_html(&content), "123");
    let content = ("1",).into_content();
    assert_eq!(content_html(&content), "1");
}

#[test]
fn raw_and_text_are_written_verbatim() {
    let mut output = Vec::new();
    Node::Raw(String::from("<hr>&amp;")).write_to(&mut output);
    Node::Text("a < b").write_to(&mut output);
    assert_eq!(String::from_utf8(output).unwrap(), "<hr>&amp;a < b");
}

#[test]
fn write_appends_to_existing_output() {
    let mut output = b"<!DOCTYPE html>".to_vec();
    Node::from("ü").write_to(&mut output);
    assert_eq!(String::from_utf8(output).unwrap(), "<!DOCTYPE html>ü");
}

#[test]
fn content_push_append_and_from_iter() {
    let mut content = Content::new();
    assert!(content.is_empty());
    content.push(Node::Text("a"));
    content.append(Content::from_iter(vec![Node::from("b"), Node::from(Element { name: "i", attributes: Vec::new(), content: Content::new() })]));
    assert!(!content.is_empty());
    assert_eq!(content_html(&content), "ab<i />");
}

#[test]
fn content_keeps_nodes_in_order() {
    let content = Content::from(vec![Node::Text("a"), Node::Raw(String::from("<b>")), Node::Text("c")]);
    let nodes = content.as_slice();
    assert_eq!(nodes.len(), 3);
    assert_eq!(nodes[0], Node::Text("a"));
    assert_eq!(nodes[1], Node::Raw(String::from("<b>")));
    assert_eq!(nodes[2], Node::Text("c"));
}

#[test]
fn content_from_vector_keeps_every_node() {
    let content = Content::from(vec![Node::Text("x"), Node::Text("y")]);
    assert_eq!(content_html(&content), "xy");
    assert!(Content::from(Vec::new()).is_empty());
}

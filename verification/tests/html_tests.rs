use moon_style::dom::{Dom, ElementData};
use moon_style::formatting_list::{Entry, ListOfActiveFormattingElements};
use moon_style::html_elements::{Comment, HTMLBaseElement, HTMLElement};
use moon_style::html_token::{Attribute, Token};

#[test]
fn html_tag_token_flags() {
    let start = Token::new_start_tag();
    assert!(start.is_start_tag());
    assert!(!start.is_end_tag());
    assert!(!start.is_self_closing());
    assert!(!start.is_eof());

    let end = Token::new_end_tag();
    assert!(end.is_end_tag());
    assert!(!end.is_start_tag());

    assert!(Token::EOF.is_eof());
    assert!(!Token::Character('x').is_start_tag());
}

#[test]
fn html_tag_token_names_and_attributes() {
    let mut tag = Token::new_start_tag_with_name("div");
    assert_eq!(tag.tag_name(), "div");

    tag.set_tag_name("span");
    assert_eq!(tag.tag_name(), "span");

    assert!(tag.attributes().is_empty());
    tag.attributes_mut()
        .push(Attribute::from_name_value("id".to_string(), "x".to_string()));
    tag.attributes_mut()
        .push(Attribute::from_name_value("class".to_string(), "y".to_string()));
    assert_eq!(tag.attributes().len(), 2);

    // The lookup hands back the first matching attribute's value.
    assert_eq!(tag.attribute("id"), Some(&"x".to_string()));
    assert_eq!(tag.attribute("class"), Some(&"y".to_string()));
    assert_eq!(tag.attribute("missing"), None);

    tag.drop_attributes();
    assert!(tag.attributes().is_empty());
}

#[test]
fn html_doctype_force_quirks() {
    let mut doctype = Token::new_doctype();
    doctype.set_force_quirks(true);
    match doctype {
        Token::DOCTYPE { force_quirks, name, public_identifier, system_identifier } => {
            assert!(force_quirks);
            assert!(name.is_none());
            assert!(public_identifier.is_none());
            assert!(system_identifier.is_none());
        }
        _ => panic!("expected a doctype"),
    }

    // On any other token the call changes nothing.
    let mut other = Token::new_comment("note");
    other.set_force_quirks(true);
    assert_eq!(other, Token::Comment("note".to_string()));
}

#[test]
fn html_self_closing_acknowledgement() {
    let mut tag = Token::new_start_tag_with_name("br");
    tag.acknowledge_self_closing_if_set();
    // Not self-closing: nothing acknowledged.
    match &tag {
        Token::Tag { self_closing_acknowledged, .. } => assert!(!self_closing_acknowledged),
        _ => unreachable!(),
    }

    let mut closed = Token::Tag {
        tag_name: "br".to_string(),
        self_closing: true,
        attributes: Vec::new(),
        is_end_tag: false,
        self_closing_acknowledged: false,
    };
    closed.acknowledge_self_closing_if_set();
    match &closed {
        Token::Tag { self_closing_acknowledged, .. } => assert!(self_closing_acknowledged),
        _ => unreachable!(),
    }
}

#[test]
fn attribute_constructors() {
    let empty = Attribute::new();
    assert_eq!(empty.name, "");
    assert_eq!(empty.value, "");

    let named = Attribute::from_name_value("href".to_string(), "/".to_string());
    assert_eq!(named.name, "href");
    assert_eq!(named.value, "/");
    assert_eq!(named.prefix, "");
    assert_eq!(named.namespace, "");
}

#[test]
fn formatting_list_markers_and_elements() {
    let mut dom = Dom::new();
    let b = dom.append_element(None, ElementData::new("b".to_string()));
    let i = dom.append_element(None, ElementData::new("i".to_string()));

    let mut list = ListOfActiveFormattingElements::new();
    assert_eq!(list.len(), 0);
    list.add_element(b);
    list.add_marker();
    list.add_element(i);

    assert!(list.contains_node(b));
    assert!(list.contains_node(i));
    assert!(!list.contains_node(99));

    // Distances from the end of the last matching entries.
    assert_eq!(list.get_index_of_node(i), Some(0));
    assert_eq!(list.get_index_of_node(b), Some(2));

    // Scanning from the end stops at the marker: i is found, b is not.
    assert_eq!(list.get_element_after_last_marker(&dom, "i"), Some(i));
    assert_eq!(list.get_element_after_last_marker(&dom, "b"), None);

    list.clear_up_to_last_marker();
    assert_eq!(list.entries, vec![Entry::Element(b)]);

    // Clearing without a marker empties the list.
    list.clear_up_to_last_marker();
    assert!(list.entries.is_empty());
}

#[test]
fn formatting_list_remove_element() {
    let mut list = ListOfActiveFormattingElements::new();
    list.add_element(1);
    list.add_element(2);
    list.add_element(1);
    list.remove_element(1);
    assert_eq!(list.entries, vec![Entry::Element(1), Entry::Element(2)]);
    list.remove_element(7);
    assert_eq!(list.entries, vec![Entry::Element(1), Entry::Element(2)]);
}

#[test]
fn comment_holds_character_data() {
    let comment = Comment::new("hello".to_string());
    assert_eq!(comment.character_data.data, "hello");
}

#[test]
fn base_element_reads_href_and_target() {
    let mut element = ElementData::new("base".to_string());
    element.set_attribute("href", "https://example.test/");
    let base = HTMLBaseElement::new(HTMLElement::new(element));
    assert_eq!(base.href(), "https://example.test/");
    assert_eq!(base.target(), "");
}

#[test]
fn element_data_attributes_and_id() {
    let mut element = ElementData::new("div".to_string());
    assert_eq!(element.id(), "");
    element.set_attribute("id", "first");
    assert_eq!(element.id(), "first");
    // A later write shadows the earlier value.
    element.set_attribute("id", "second");
    assert_eq!(element.id(), "second");
    assert_eq!(element.get_attribute("id"), Some("second".to_string()));
    assert_eq!(element.get_attribute("lang"), None);

    element.add_class("a".to_string());
    element.add_class("b".to_string());
    assert!(element.has_class(&"a".to_string()));
    assert!(element.has_class(&"b".to_string()));
    assert!(!element.has_class(&"c".to_string()));
}

#[test]
fn dom_navigation() {
    let mut dom = Dom::new();
    let root = dom.append_element(None, ElementData::new("html".to_string()));
    let a = dom.append_element(Some(root), ElementData::new("a".to_string()));
    let text = dom.append_text(Some(root), "hi".to_string());
    let b = dom.append_element(Some(root), ElementData::new("b".to_string()));

    assert_eq!(dom.len(), 4);
    assert_eq!(dom.parent_of(root), None);
    assert_eq!(dom.parent_of(a), Some(root));
    assert_eq!(dom.prev_sibling_of(a), None);
    assert_eq!(dom.prev_sibling_of(text), Some(a));
    assert_eq!(dom.prev_sibling_of(b), Some(text));
    assert_eq!(dom.children(root), vec![a, text, b]);
    assert!(dom.is_text_node(text));
    assert!(!dom.is_text_node(a));
    assert!(dom.get_element(a).is_some());
    assert!(dom.get_element(text).is_none());
}

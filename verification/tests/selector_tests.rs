use moon_style::dom::{Dom, ElementData};
use moon_style::selector::{
    Combinator, Selector, SimpleSelector, SimpleSelectorSequence, SimpleSelectorType,
};
use moon_style::selector_matching::{is_match_selector, is_match_selectors};

fn type_selector(tag: &str) -> SimpleSelector {
    SimpleSelector::new(SimpleSelectorType::Type, Some(tag.to_string()))
}

fn id_selector(id: &str) -> SimpleSelector {
    SimpleSelector::new(SimpleSelectorType::ID, Some(id.to_string()))
}

fn seq(selectors: Vec<SimpleSelector>) -> SimpleSelectorSequence {
    SimpleSelectorSequence::new(selectors)
}

#[test]
fn match_simple_type() {
    let mut dom = Dom::new();
    let element = dom.append_element(None, ElementData::new("h1".to_string()));

    // h1 { color: red; }
    let selectors = vec![Selector::new(vec![(seq(vec![type_selector("h1")]), None)])];
    assert!(is_match_selectors(&dom, element, &selectors));
}

#[test]
fn match_simple_id() {
    let mut dom = Dom::new();
    let mut element = ElementData::new("h1".to_string());
    element.set_attribute("id", "button");
    let element = dom.append_element(None, element);

    // h1#button { color: red; }
    let selectors = vec![Selector::new(vec![(
        seq(vec![type_selector("h1"), id_selector("button")]),
        None,
    )])];
    assert!(is_match_selectors(&dom, element, &selectors));
}

#[test]
fn match_simple_decendant() {
    let mut dom = Dom::new();
    let parent = dom.append_element(None, ElementData::new("h1".to_string()));
    let child = dom.append_element(Some(parent), ElementData::new("button".to_string()));

    // h1 button { color: red; }
    let selectors = vec![Selector::new(vec![
        (seq(vec![type_selector("h1")]), Some(Combinator::Descendant)),
        (seq(vec![type_selector("button")]), None),
    ])];
    assert!(is_match_selectors(&dom, child, &selectors));
}

#[test]
fn match_simple_child() {
    let mut dom = Dom::new();
    let parent = dom.append_element(None, ElementData::new("h1".to_string()));
    let child = dom.append_element(Some(parent), ElementData::new("button".to_string()));

    // h1 > button { color: red; }
    let selectors = vec![Selector::new(vec![
        (seq(vec![type_selector("h1")]), Some(Combinator::Child)),
        (seq(vec![type_selector("button")]), None),
    ])];
    assert!(is_match_selectors(&dom, child, &selectors));
}

#[test]
fn match_invalid_child() {
    let mut dom = Dom::new();
    let parent = dom.append_element(None, ElementData::new("h1".to_string()));
    let child = dom.append_element(Some(parent), ElementData::new("button".to_string()));

    // button > h1 { color: red; }
    let selectors = vec![Selector::new(vec![
        (seq(vec![type_selector("button")]), Some(Combinator::Child)),
        (seq(vec![type_selector("h1")]), None),
    ])];
    assert!(!is_match_selectors(&dom, child, &selectors));
}

#[test]
fn match_invalid_id() {
    let mut dom = Dom::new();
    let parent = dom.append_element(None, ElementData::new("h1".to_string()));
    let child = dom.append_element(Some(parent), ElementData::new("button".to_string()));

    // h1#name > button { color: red; }
    let selectors = vec![Selector::new(vec![
        (
            seq(vec![type_selector("h1"), id_selector("name")]),
            Some(Combinator::Child),
        ),
        (seq(vec![type_selector("button")]), None),
    ])];
    assert!(!is_match_selectors(&dom, child, &selectors));
}

#[test]
fn match_descendant_through_wrapper() {
    // h1 > div > button still matches `h1 button`.
    let mut dom = Dom::new();
    let top = dom.append_element(None, ElementData::new("h1".to_string()));
    let wrapper = dom.append_element(Some(top), ElementData::new("div".to_string()));
    let button = dom.append_element(Some(wrapper), ElementData::new("button".to_string()));

    let selector = Selector::new(vec![
        (seq(vec![type_selector("h1")]), Some(Combinator::Descendant)),
        (seq(vec![type_selector("button")]), None),
    ]);
    assert!(is_match_selector(&dom, button, &selector));

    // ...but `h1 > button` (child) does not match through the wrapper.
    let child_selector = Selector::new(vec![
        (seq(vec![type_selector("h1")]), Some(Combinator::Child)),
        (seq(vec![type_selector("button")]), None),
    ]);
    assert!(!is_match_selector(&dom, button, &child_selector));
}

#[test]
fn match_sibling_combinators() {
    let mut dom = Dom::new();
    let parent = dom.append_element(None, ElementData::new("div".to_string()));
    let _first = dom.append_element(Some(parent), ElementData::new("h1".to_string()));
    let _second = dom.append_element(Some(parent), ElementData::new("p".to_string()));
    let third = dom.append_element(Some(parent), ElementData::new("span".to_string()));

    // p + span matches the span; h1 + span does not.
    let next_sibling = Selector::new(vec![
        (seq(vec![type_selector("p")]), Some(Combinator::NextSibling)),
        (seq(vec![type_selector("span")]), None),
    ]);
    assert!(is_match_selector(&dom, third, &next_sibling));

    let wrong_next = Selector::new(vec![
        (seq(vec![type_selector("h1")]), Some(Combinator::NextSibling)),
        (seq(vec![type_selector("span")]), None),
    ]);
    assert!(!is_match_selector(&dom, third, &wrong_next));

    // h1 ~ span matches across the intervening p.
    let subsequent = Selector::new(vec![
        (
            seq(vec![type_selector("h1")]),
            Some(Combinator::SubsequentSibling),
        ),
        (seq(vec![type_selector("span")]), None),
    ]);
    assert!(is_match_selector(&dom, third, &subsequent));
}

#[test]
fn match_universal_and_class() {
    let mut dom = Dom::new();
    let mut element = ElementData::new("div".to_string());
    element.add_class("wide".to_string());
    let node = dom.append_element(None, element);

    let universal = Selector::new(vec![(
        seq(vec![SimpleSelector::new(SimpleSelectorType::Universal, None)]),
        None,
    )]);
    assert!(is_match_selector(&dom, node, &universal));

    let class_hit = Selector::new(vec![(
        seq(vec![SimpleSelector::new(
            SimpleSelectorType::Class,
            Some("wide".to_string()),
        )]),
        None,
    )]);
    assert!(is_match_selector(&dom, node, &class_hit));

    let class_miss = Selector::new(vec![(
        seq(vec![SimpleSelector::new(
            SimpleSelectorType::Class,
            Some("narrow".to_string()),
        )]),
        None,
    )]);
    assert!(!is_match_selector(&dom, node, &class_miss));

    // A kind that needs a name but has none matches nothing.
    let nameless = Selector::new(vec![(
        seq(vec![SimpleSelector::new(SimpleSelectorType::Type, None)]),
        None,
    )]);
    assert!(!is_match_selector(&dom, node, &nameless));
}

#[test]
fn match_missing_parent_fails() {
    let mut dom = Dom::new();
    let lone = dom.append_element(None, ElementData::new("button".to_string()));

    // h1 > button cannot match a parentless button.
    let selector = Selector::new(vec![
        (seq(vec![type_selector("h1")]), Some(Combinator::Child)),
        (seq(vec![type_selector("button")]), None),
    ]);
    assert!(!is_match_selector(&dom, lone, &selector));
}

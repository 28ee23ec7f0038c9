use moon_style::cssom::{ComponentValue, Declaration, Function};
use moon_style::dom::{Dom, ElementData};
use moon_style::render_tree::{
    build_render_tree, compute_styles, CascadeOrigin, CSSLocation, ContextualRule,
};
use moon_style::selector::{
    Combinator, Selector, SimpleSelector, SimpleSelectorSequence, SimpleSelectorType,
};
use moon_style::style_tree::{build_style_tree, CSSRule, CSSStyleSheet, StyleRule};
use moon_style::token::Token;
use moon_style::values::{Color, Display, Properties, Property, Value};

fn id_selector(id: &str) -> Selector {
    Selector::new(vec![(
        SimpleSelectorSequence::new(vec![SimpleSelector::new(
            SimpleSelectorType::ID,
            Some(id.to_string()),
        )]),
        None,
    )])
}

fn tag_selector(tag: &str) -> Selector {
    Selector::new(vec![(
        SimpleSelectorSequence::new(vec![SimpleSelector::new(
            SimpleSelectorType::Type,
            Some(tag.to_string()),
        )]),
        None,
    )])
}

fn descendant_id_selector(ancestor: &str, subject: &str) -> Selector {
    Selector::new(vec![
        (
            SimpleSelectorSequence::new(vec![SimpleSelector::new(
                SimpleSelectorType::ID,
                Some(ancestor.to_string()),
            )]),
            Some(Combinator::Descendant),
        ),
        (
            SimpleSelectorSequence::new(vec![SimpleSelector::new(
                SimpleSelectorType::ID,
                Some(subject.to_string()),
            )]),
            None,
        ),
    ])
}

fn keyword_declaration(name: &str, keyword: &str) -> Declaration {
    Declaration {
        name: name.to_string(),
        value: vec![ComponentValue::PerservedToken(Token::Ident(keyword.to_string()))],
        important: false,
    }
}

fn rgba_declaration(name: &str, ch: [i64; 4]) -> Declaration {
    let mut args = Vec::new();
    for (i, c) in ch.iter().enumerate() {
        if i > 0 {
            args.push(ComponentValue::PerservedToken(Token::Comma));
            args.push(ComponentValue::PerservedToken(Token::Whitespace));
        }
        args.push(ComponentValue::PerservedToken(Token::Number(*c)));
    }
    Declaration {
        name: name.to_string(),
        value: vec![ComponentValue::Function(Function {
            name: "rgba".to_string(),
            value: args,
        })],
        important: false,
    }
}

fn contextual(selectors: Vec<Selector>, declarations: Vec<Declaration>) -> ContextualRule {
    ContextualRule {
        inner: StyleRule { selectors, declarations },
        location: CSSLocation::Embedded,
        origin: CascadeOrigin::User,
    }
}

/// DOM: div#parent > div#child > "Hello"
fn simple_dom() -> (Dom, usize, usize) {
    let mut dom = Dom::new();
    let mut parent = ElementData::new("div".to_string());
    parent.set_attribute("id", "parent");
    let parent = dom.append_element(None, parent);
    let mut child = ElementData::new("div".to_string());
    child.set_attribute("id", "child");
    let child = dom.append_element(Some(parent), child);
    let _text = dom.append_text(Some(child), "Hello".to_string());
    (dom, parent, child)
}

#[test]
fn render_tree_build_tree_simple() {
    let (dom, parent, _child) = simple_dom();

    // #parent { background-color: white; }
    // #parent #child { color: rgba(255, 255, 255, 255); }
    // #child { display: block; }
    let rules = vec![
        contextual(
            vec![id_selector("parent")],
            vec![keyword_declaration("background-color", "white")],
        ),
        contextual(
            vec![descendant_id_selector("parent", "child")],
            vec![rgba_declaration("color", [255, 255, 255, 255])],
        ),
        contextual(
            vec![id_selector("child")],
            vec![keyword_declaration("display", "block")],
        ),
    ];

    let render_tree =
        build_render_tree(&dom, parent, &rules, None).expect("Render tree is not constructed");

    let parent_styles = &render_tree.properties;
    assert_eq!(
        parent_styles.get(&Property::BackgroundColor),
        Value::Color(Color::RGBA(255, 255, 255, 255))
    );

    let child_node = &render_tree.children[0];
    let child_styles = &child_node.properties;
    assert_eq!(
        child_styles.get(&Property::Color),
        Value::Color(Color::RGBA(255, 255, 255, 255))
    );
    assert_eq!(
        child_styles.get(&Property::Display),
        Value::Display(Display::Block)
    );
}

#[test]
fn style_tree_build_tree_simple() {
    let (dom, parent, _child) = simple_dom();

    // #parent { background-color: white; }
    // #parent #child { color: white; }
    // #child { display: block; }
    let stylesheet = CSSStyleSheet {
        rules: vec![
            CSSRule::Style(StyleRule {
                selectors: vec![id_selector("parent")],
                declarations: vec![keyword_declaration("background-color", "white")],
            }),
            CSSRule::Style(StyleRule {
                selectors: vec![descendant_id_selector("parent", "child")],
                declarations: vec![keyword_declaration("color", "white")],
            }),
            CSSRule::Style(StyleRule {
                selectors: vec![id_selector("child")],
                declarations: vec![keyword_declaration("display", "block")],
            }),
        ],
    };

    let style_tree = build_style_tree(&dom, parent, &vec![stylesheet]);

    assert_eq!(
        style_tree.properties.get(&Property::BackgroundColor),
        Some(Value::Color(Color::RGBA(255, 255, 255, 255)))
    );

    let child_node = &style_tree.children[0];
    assert_eq!(
        child_node.properties.get(&Property::Color),
        Some(Value::Color(Color::RGBA(255, 255, 255, 255)))
    );
    assert_eq!(
        child_node.properties.get(&Property::Display),
        Some(Value::Display(Display::Block))
    );
}

#[test]
fn inheritable_property_inherits_parent_computed_value() {
    let (dom, parent, child) = simple_dom();

    // Only the parent declares a color; the child inherits its computed
    // value, while the non-inheritable display falls back to its initial
    // value regardless of the parent.
    let rules = vec![contextual(
        vec![id_selector("parent")],
        vec![
            keyword_declaration("color", "red"),
            keyword_declaration("display", "block"),
        ],
    )];

    let render_tree = build_render_tree(&dom, parent, &rules, None).unwrap();
    assert_eq!(
        render_tree.properties.get(&Property::Color),
        Value::Color(Color::RGBA(255, 0, 0, 255))
    );
    assert_eq!(
        render_tree.properties.get(&Property::Display),
        Value::Display(Display::Block)
    );

    let child_node = &render_tree.children[0];
    assert_eq!(child_node.node, child);
    // color is inheritable: the child has no declaration and takes the
    // parent's computed value.
    assert_eq!(
        child_node.get_style(&Property::Color),
        Value::Color(Color::RGBA(255, 0, 0, 255))
    );
    // display is not inheritable: the undeclared child gets the initial
    // value (inline), not the parent's block.
    assert_eq!(
        child_node.get_style(&Property::Display),
        Value::Display(Display::Inline)
    );
}

#[test]
fn compute_styles_resolves_specified_inherited_and_initial() {
    let mut specified = Properties::new();
    specified.insert(
        Property::BackgroundColor,
        Value::Color(Color::RGBA(1, 2, 3, 4)),
    );

    let parent = compute_styles(
        {
            let mut p = Properties::new();
            p.insert(Property::Color, Value::Color(Color::RGBA(9, 9, 9, 9)));
            p
        },
        None,
    );

    let computed = compute_styles(specified, Some(&parent));
    // Declared value wins.
    assert_eq!(
        computed.get(&Property::BackgroundColor),
        Value::Color(Color::RGBA(1, 2, 3, 4))
    );
    // Inheritable and undeclared: the parent's computed value.
    assert_eq!(
        computed.get(&Property::Color),
        Value::Color(Color::RGBA(9, 9, 9, 9))
    );
    // Not inheritable and undeclared: the initial value.
    assert_eq!(computed.get(&Property::Display), Value::Display(Display::Inline));
}

#[test]
fn head_subtree_produces_no_render_node() {
    let mut dom = Dom::new();
    let html = dom.append_element(None, ElementData::new("html".to_string()));
    let head = dom.append_element(Some(html), ElementData::new("head".to_string()));
    let _title = dom.append_element(Some(head), ElementData::new("title".to_string()));
    let body = dom.append_element(Some(html), ElementData::new("body".to_string()));

    let rules: Vec<ContextualRule> = Vec::new();
    assert!(build_render_tree(&dom, head, &rules, None).is_none());

    let tree = build_render_tree(&dom, html, &rules, None).unwrap();
    // Only the body child remains; the head subtree is pruned entirely.
    assert_eq!(tree.children.len(), 1);
    assert_eq!(tree.children[0].node, body);
    assert!(tree.children[0].children.is_empty());
}

#[test]
fn display_none_prunes_whole_subtree() {
    let mut dom = Dom::new();
    let root = dom.append_element(None, ElementData::new("div".to_string()));
    let mut hidden = ElementData::new("div".to_string());
    hidden.set_attribute("id", "hidden");
    let hidden = dom.append_element(Some(root), hidden);
    let mut inner = ElementData::new("span".to_string());
    inner.set_attribute("id", "inner");
    let _inner = dom.append_element(Some(hidden), inner);

    // #hidden { display: none; } #inner { display: block; }: the descendant
    // setting display:block must not reappear anywhere.
    let rules = vec![
        contextual(
            vec![id_selector("hidden")],
            vec![keyword_declaration("display", "none")],
        ),
        contextual(
            vec![id_selector("inner")],
            vec![keyword_declaration("display", "block")],
        ),
    ];

    let tree = build_render_tree(&dom, root, &rules, None).unwrap();
    assert!(tree.children.is_empty());

    assert!(build_render_tree(&dom, hidden, &rules, None).is_none());
}

#[test]
fn text_node_inherits_everything_and_carries_no_own_style() {
    let (dom, parent, child) = simple_dom();
    let rules = vec![contextual(
        vec![id_selector("parent")],
        vec![keyword_declaration("color", "blue")],
    )];
    let tree = build_render_tree(&dom, parent, &rules, None).unwrap();
    let child_node = &tree.children[0];
    assert_eq!(child_node.node, child);
    let text_node = &child_node.children[0];
    assert_eq!(
        text_node.get_style(&Property::Color),
        Value::Color(Color::RGBA(0, 0, 255, 255))
    );
}

#[test]
fn rebuilding_render_tree_gives_equal_tree() {
    let (dom, parent, _child) = simple_dom();
    let rules = vec![
        contextual(
            vec![id_selector("parent")],
            vec![keyword_declaration("background-color", "white")],
        ),
        contextual(
            vec![tag_selector("div")],
            vec![keyword_declaration("color", "green")],
        ),
    ];
    let first = build_render_tree(&dom, parent, &rules, None);
    let second = build_render_tree(&dom, parent, &rules, None);
    assert_eq!(first, second);
}

#[test]
fn later_rules_win_over_earlier_ones() {
    let (dom, parent, _child) = simple_dom();
    let rules = vec![
        contextual(
            vec![id_selector("parent")],
            vec![keyword_declaration("color", "red")],
        ),
        contextual(
            vec![tag_selector("div")],
            vec![keyword_declaration("color", "blue")],
        ),
    ];
    let tree = build_render_tree(&dom, parent, &rules, None).unwrap();
    assert_eq!(
        tree.properties.get(&Property::Color),
        Value::Color(Color::RGBA(0, 0, 255, 255))
    );
}

#[test]
fn unknown_properties_and_unparsable_values_are_dropped() {
    let (dom, parent, _child) = simple_dom();
    let rules = vec![contextual(
        vec![id_selector("parent")],
        vec![
            keyword_declaration("border-style", "dashed"),
            keyword_declaration("color", "chartreuse"),
            rgba_declaration("background-color", [300, 0, 0, 255]),
        ],
    )];
    let tree = build_render_tree(&dom, parent, &rules, None).unwrap();
    // Everything fell back to initial values.
    assert_eq!(
        tree.properties.get(&Property::Color),
        Value::Color(Color::RGBA(0, 0, 0, 255))
    );
    assert_eq!(
        tree.properties.get(&Property::BackgroundColor),
        Value::Color(Color::RGBA(0, 0, 0, 255))
    );
    assert_eq!(tree.properties.get(&Property::Display), Value::Display(Display::Inline));
}

#[test]
fn style_node_get_value_falls_back_to_default() {
    let (dom, parent, _child) = simple_dom();
    let sheet = CSSStyleSheet {
        rules: vec![CSSRule::Style(StyleRule {
            selectors: vec![id_selector("parent")],
            declarations: vec![keyword_declaration("display", "block")],
        })],
    };
    let tree = build_style_tree(&dom, parent, &vec![sheet]);
    assert_eq!(tree.get_value(Property::Display), Value::Display(Display::Block));
    // Undeclared: the property's default.
    assert_eq!(
        tree.get_value(Property::Color),
        Value::Color(Color::RGBA(0, 0, 0, 255))
    );
}

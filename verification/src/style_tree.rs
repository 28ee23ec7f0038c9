//! The style tree: for every DOM node, the declared values its matching
//! style rules supply, applied in stylesheet order with later rules winning.

use vstd::prelude::*;

use crate::cssom::Declaration;
use crate::dom::Dom;
use crate::selector::Selector;
use crate::selector_matching::{matches_selectors_at, selectors_match};
use crate::token::{Token, TokenView};
use crate::values::{parse_value_tokens_spec, property_from_name, initial_value, Properties, Property, Value};

verus! {

/// A style rule as the cascade consumes it: a selector list and the
/// declarations it applies.
#[derive(Debug)]
pub struct StyleRule {
    pub selectors: Vec<Selector>,
    pub declarations: Vec<Declaration>,
}

/// One rule of a stylesheet in object-model form.
#[derive(Debug)]
pub enum CSSRule {
    Style(StyleRule),
}

/// A stylesheet in object-model form: a list of style rules.
#[derive(Debug)]
pub struct CSSStyleSheet {
    pub rules: Vec<CSSRule>,
}

/// A style node: the DOM node it styles, its declared values, and its
/// children, mirroring the DOM.
#[derive(Debug, PartialEq)]
pub struct StyleNode {
    pub node: usize,
    pub properties: Properties,
    pub children: Vec<StyleNode>,
}

/// Model of a style node.
pub struct StyleNodeView {
    pub node: int,
    pub properties: Properties,
    pub children: Seq<StyleNodeView>,
}

pub open spec fn style_node_view(n: StyleNode) -> StyleNodeView
    decreases n,
{
    StyleNodeView {
        node: n.node as int,
        properties: n.properties,
        children: style_nodes_view(n.children),
    }
}

/// The out-of-range guard keeps the closure total so the recursion visibly
/// terminates; indices past the length are never read.
pub open spec fn style_nodes_view(ns: Vec<StyleNode>) -> Seq<StyleNodeView>
    decreases ns,
{
    Seq::new(
        ns@.len(),
        |i: int|
            if 0 <= i < ns@.len() {
                style_node_view(ns[i])
            } else {
                StyleNodeView {
                    node: 0,
                    properties: Properties { background_color: None, color: None, display: None },
                    children: Seq::empty(),
                }
            },
    )
}

impl View for StyleNode {
    type V = StyleNodeView;

    open spec fn view(&self) -> StyleNodeView {
        style_node_view(*self)
    }
}

/// The preserved tokens of a component-value run: functions and blocks are
/// dropped, bare tokens kept in order.
pub open spec fn preserved_toks(cvs: Seq<crate::cssom::ComponentValue>) -> Seq<TokenView>
    decreases cvs.len(),
{
    if cvs.len() == 0 {
        Seq::empty()
    } else {
        match cvs[0] {
            crate::cssom::ComponentValue::PerservedToken(t) => seq![t@] + preserved_toks(
                cvs.skip(1),
            ),
            _ => preserved_toks(cvs.skip(1)),
        }
    }
}

/// The effect of one declaration on the declared-value map: a recognized
/// property whose preserved tokens parse in the property's domain overwrites
/// the entry; unrecognized names and unparsable values are dropped silently.
pub open spec fn apply_declaration_spec(props: Properties, decl: Declaration) -> Properties {
    match property_from_name(decl.name@) {
        Some(p) => match parse_value_tokens_spec(p, preserved_toks(decl.value@)) {
            Some(v) => props.insert_spec(p, v),
            None => props,
        },
        None => props,
    }
}

/// The declarations from index `i` on, applied in order.
pub open spec fn apply_declarations_spec(
    props: Properties,
    decls: Seq<Declaration>,
    i: int,
) -> Properties
    decreases decls.len() - i,
{
    if 0 <= i < decls.len() {
        apply_declarations_spec(apply_declaration_spec(props, decls[i]), decls, i + 1)
    } else {
        props
    }
}

/// The effect of one style rule on a node's declared values: its
/// declarations apply exactly when its selector list matches the node.
pub open spec fn apply_style_rule_spec(
    dom: Dom,
    node: int,
    rule: StyleRule,
    props: Properties,
) -> Properties {
    if selectors_match(dom, node, rule.selectors@) {
        apply_declarations_spec(props, rule.declarations@, 0)
    } else {
        props
    }
}

/// The rules of one stylesheet from index `i` on, applied in order.
pub open spec fn apply_sheet_rules_spec(
    dom: Dom,
    node: int,
    rules: Seq<CSSRule>,
    i: int,
    props: Properties,
) -> Properties
    decreases rules.len() - i,
{
    if 0 <= i < rules.len() {
        let props2 = match rules[i] {
            CSSRule::Style(rule) => apply_style_rule_spec(dom, node, rule, props),
        };
        apply_sheet_rules_spec(dom, node, rules, i + 1, props2)
    } else {
        props
    }
}

/// The stylesheets from index `i` on, applied in order: later rules win.
pub open spec fn apply_stylesheets_spec(
    dom: Dom,
    node: int,
    sheets: Seq<CSSStyleSheet>,
    i: int,
    props: Properties,
) -> Properties
    decreases sheets.len() - i,
{
    if 0 <= i < sheets.len() {
        let props2 = apply_sheet_rules_spec(dom, node, sheets[i].rules@, 0, props);
        apply_stylesheets_spec(dom, node, sheets, i + 1, props2)
    } else {
        props
    }
}

/// The declared values of a node under the given stylesheets: empty for a
/// text node, else every matching rule's declarations in stylesheet order.
pub open spec fn node_properties_spec(dom: Dom, node: int, sheets: Seq<CSSStyleSheet>) -> Properties {
    if dom.is_text(node) {
        Properties { background_color: None, color: None, display: None }
    } else {
        apply_stylesheets_spec(
            dom,
            node,
            sheets,
            0,
            Properties { background_color: None, color: None, display: None },
        )
    }
}

/// Clips a child id into `(node, cnt]` so the recursion visibly terminates;
/// in a well-formed DOM a child id is always in that range already.
pub open spec fn clip_child(child: int, node: int, cnt: int) -> int {
    if child <= node {
        node + 1
    } else if child > cnt {
        cnt
    } else {
        child
    }
}

/// The style tree rooted at a node: its declared values and, for each DOM
/// child in order, that child's style tree.
pub open spec fn style_tree_spec(dom: Dom, node: int, sheets: Seq<CSSStyleSheet>) -> StyleNodeView
    decreases dom.node_cnt() - node, 2int,
{
    StyleNodeView {
        node,
        properties: node_properties_spec(dom, node, sheets),
        children: style_children_spec(dom, node, sheets, dom.children_of(node), 0),
    }
}

/// The style trees of the children from index `k` on.
pub open spec fn style_children_spec(
    dom: Dom,
    node: int,
    sheets: Seq<CSSStyleSheet>,
    kids: Seq<int>,
    k: int,
) -> Seq<StyleNodeView>
    decreases dom.node_cnt() - node, 1int, kids.len() - k,
{
    if 0 <= k < kids.len() && node < dom.node_cnt() {
        let c = clip_child(kids[k], node, dom.node_cnt());
        seq![style_tree_spec(dom, c, sheets)] + style_children_spec(dom, node, sheets, kids, k + 1)
    } else {
        Seq::empty()
    }
}

/// The preserved tokens of a declaration's value.
fn collect_preserved_tokens(cvs: &Vec<crate::cssom::ComponentValue>) -> (r: Vec<Token>)
    ensures
        r.deep_view() == preserved_toks(cvs@),
{
    let n = cvs.len();
    let mut r: Vec<Token> = Vec::new();
    let mut i: usize = 0;
    proof {
        assert(cvs@.skip(0) =~= cvs@);
        assert(r.deep_view() + preserved_toks(cvs@) =~= preserved_toks(cvs@));
    }
    loop
        invariant_except_break
            0 <= i <= n,
            n == cvs@.len(),
            preserved_toks(cvs@) == r.deep_view() + preserved_toks(cvs@.skip(i as int)),
        ensures
            r.deep_view() == preserved_toks(cvs@),
        decreases n - i,
    {
        if i >= n {
            proof {
                assert(r.deep_view() + preserved_toks(cvs@.skip(i as int)) =~= r.deep_view());
            }
            break ;
        }
        let ghost r_pre = r;
        proof {
            assert(cvs@.skip(i as int)[0] == cvs@[i as int]);
            assert(cvs@.skip(i as int).skip(1) =~= cvs@.skip(i as int + 1));
        }
        match &cvs[i] {
            crate::cssom::ComponentValue::PerservedToken(t) => {
                r.push(t.clone());
                proof {
                    assert(r.deep_view() =~= r_pre.deep_view().push(cvs@[i as int]->PerservedToken_0@));
                    assert(r_pre.deep_view() + preserved_toks(cvs@.skip(i as int)) =~= r.deep_view()
                        + preserved_toks(cvs@.skip(i as int + 1)));
                }
            },
            _ => {},
        }
        i = i + 1;
    }
    r
}

/// Applies one style rule to a node's declared values: if the rule's
/// selector list matches, each declaration naming a recognized property with
/// a parsable value overwrites that property's entry.
pub fn apply_style_rule(dom: &Dom, node: usize, rule: &StyleRule, properties: &mut Properties)
    ensures
        *final(properties) == apply_style_rule_spec(*dom, node as int, *rule, *old(properties)),
{
    if !matches_selectors_at(dom, node, &rule.selectors) {
        return ;
    }
    let n = rule.declarations.len();
    let mut i: usize = 0;
    loop
        invariant_except_break
            0 <= i <= n,
            n == rule.declarations@.len(),
            apply_declarations_spec(*old(properties), rule.declarations@, 0)
                == apply_declarations_spec(*properties, rule.declarations@, i as int),
        ensures
            *properties == apply_declarations_spec(*old(properties), rule.declarations@, 0),
        decreases n - i,
    {
        if i >= n {
            break ;
        }
        let declaration = &rule.declarations[i];
        let ghost props_pre = *properties;
        match Property::parse(declaration.name.as_str()) {
            Some(property) => {
                let tokens = collect_preserved_tokens(&declaration.value);
                match Value::parse(&property, &tokens) {
                    Some(value) => {
                        properties.insert(property, value);
                    },
                    None => {},
                }
            },
            None => {},
        }
        proof {
            assert(*properties == apply_declaration_spec(props_pre, rule.declarations@[i as int]));
        }
        i = i + 1;
    }
}

/// Applies every style rule of every stylesheet, in order: later rules win.
pub fn apply_stylesheets(dom: &Dom, node: usize, stylesheets: &Vec<CSSStyleSheet>) -> (r:
    Properties)
    ensures
        r == apply_stylesheets_spec(
            *dom,
            node as int,
            stylesheets@,
            0,
            Properties { background_color: None, color: None, display: None },
        ),
{
    let mut properties = Properties::new();
    proof {
        assert(properties == (Properties {
            background_color: None::<Value>,
            color: None::<Value>,
            display: None::<Value>,
        }));
    }
    let n = stylesheets.len();
    let mut i: usize = 0;
    loop
        invariant_except_break
            0 <= i <= n,
            n == stylesheets@.len(),
            apply_stylesheets_spec(
                *dom,
                node as int,
                stylesheets@,
                0,
                Properties { background_color: None, color: None, display: None },
            ) == apply_stylesheets_spec(*dom, node as int, stylesheets@, i as int, properties),
        ensures
            properties == apply_stylesheets_spec(
                *dom,
                node as int,
                stylesheets@,
                0,
                Properties { background_color: None, color: None, display: None },
            ),
        decreases n - i,
    {
        if i >= n {
            break ;
        }
        let sheet = &stylesheets[i];
        let m = sheet.rules.len();
        let mut j: usize = 0;
        let ghost props_at_sheet = properties;
        loop
            invariant_except_break
                0 <= j <= m,
                m == sheet.rules@.len(),
                0 <= i < stylesheets@.len(),
                sheet == &stylesheets@[i as int],
                apply_sheet_rules_spec(*dom, node as int, sheet.rules@, 0, props_at_sheet)
                    == apply_sheet_rules_spec(
                    *dom,
                    node as int,
                    sheet.rules@,
                    j as int,
                    properties,
                ),
            ensures
                properties == apply_sheet_rules_spec(
                    *dom,
                    node as int,
                    stylesheets@[i as int].rules@,
                    0,
                    props_at_sheet,
                ),
            decreases m - j,
        {
            if j >= m {
                break ;
            }
            match &sheet.rules[j] {
                CSSRule::Style(style_rule) => {
                    apply_style_rule(dom, node, style_rule, &mut properties);
                },
            }
            j = j + 1;
        }
        i = i + 1;
    }
    properties
}

impl StyleNode {
    /// The declared value of a property, or the property's default where
    /// none was declared.
    pub fn get_value(&self, prop: Property) -> (r: Value)
        ensures
            r == (match self.properties.get_spec(prop) {
                Some(v) => v,
                None => initial_value(prop),
            }),
    {
        match self.properties.get(&prop) {
            Some(v) => v,
            None => Value::default(&prop),
        }
    }
}

/// Builds the style tree for the subtree rooted at a node: a text node gets
/// no declared values of its own; an element's come from the stylesheets;
/// children mirror the DOM in order.
pub fn build_style_tree(dom: &Dom, node: usize, stylesheets: &Vec<CSSStyleSheet>) -> (r: StyleNode)
    ensures
        r@ == style_tree_spec(*dom, node as int, stylesheets@),
    decreases dom.node_cnt() - node,
{
    let properties = if dom.is_text_node(node) {
        Properties::new()
    } else {
        apply_stylesheets(dom, node, stylesheets)
    };
    proof {
        assert(properties == node_properties_spec(*dom, node as int, stylesheets@));
    }
    let kids = dom.children(node);
    let mut children: Vec<StyleNode> = Vec::new();
    let n = kids.len();
    let mut k: usize = 0;
    proof {
        assert(style_nodes_view(children) =~= Seq::<StyleNodeView>::empty());
    }
    loop
        invariant_except_break
            0 <= k <= n,
            n == kids@.len(),
            crate::dom::ids_view(kids) == dom.children_of(node as int),
            forall|j: int| 0 <= j < kids@.len() ==> node < #[trigger] kids@[j] < dom.node_cnt(),
            style_children_spec(
                *dom,
                node as int,
                stylesheets@,
                dom.children_of(node as int),
                0,
            ) == style_nodes_view(children) + style_children_spec(
                *dom,
                node as int,
                stylesheets@,
                dom.children_of(node as int),
                k as int,
            ),
        ensures
            style_nodes_view(children) == style_children_spec(
                *dom,
                node as int,
                stylesheets@,
                dom.children_of(node as int),
                0,
            ),
        decreases n - k,
    {
        if k >= n {
            proof {
                assert(style_nodes_view(children) + Seq::<StyleNodeView>::empty()
                    =~= style_nodes_view(children));
            }
            break ;
        }
        let ghost children_pre = children;
        let child = kids[k];
        let sub = build_style_tree(dom, child, stylesheets);
        children.push(sub);
        proof {
            assert(clip_child(
                dom.children_of(node as int)[k as int],
                node as int,
                dom.node_cnt(),
            ) == child as int);
            assert(style_nodes_view(children) =~= style_nodes_view(children_pre).push(sub@));
            assert(style_nodes_view(children_pre) + (seq![
                style_tree_spec(*dom, child as int, stylesheets@),
            ] + style_children_spec(
                *dom,
                node as int,
                stylesheets@,
                dom.children_of(node as int),
                k as int + 1,
            )) =~= style_nodes_view(children) + style_children_spec(
                *dom,
                node as int,
                stylesheets@,
                dom.children_of(node as int),
                k as int + 1,
            ));
        }
        k = k + 1;
    }
    StyleNode { node, properties, children }
}

} // verus!

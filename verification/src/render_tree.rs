//! The render tree: the cascade resolves every DOM node's declared values
//! into a total computed-style map, inheriting through the parent's computed
//! values, and instantiates an owned tree mirroring the DOM with `<head>`
//! subtrees and `display: none` subtrees pruned entirely.

use vstd::prelude::*;

use crate::cssom::{cv_vec_view, Declaration};
use crate::dom::Dom;
use crate::selector_matching::{matches_selectors_at, selectors_match};
use crate::style_tree::{clip_child, StyleRule};
use crate::values::{
    is_inheritable, initial_value, parse_value_cvs, parse_value_cvs_spec, property_from_name,
    ComputedValues, Display, Properties, Property, Value,
};

verus! {

/// Where a rule's stylesheet came from.
#[derive(Clone, Copy, Debug, PartialEq, Eq, Structural)]
pub enum CSSLocation {
    Embedded,
    External,
    Inline,
}

/// Which cascade origin supplied a rule.
#[derive(Clone, Copy, Debug, PartialEq, Eq, Structural)]
pub enum CascadeOrigin {
    Author,
    User,
    UserAgent,
}

/// A style rule together with its cascade context.
#[derive(Debug)]
pub struct ContextualRule {
    pub inner: StyleRule,
    pub location: CSSLocation,
    pub origin: CascadeOrigin,
}

/// A render node: the DOM node it styles, its fully resolved computed
/// style (no unresolved inheritance left), and its children in DOM order.
#[derive(Debug, PartialEq)]
pub struct RenderNode {
    pub node: usize,
    pub properties: ComputedValues,
    pub children: Vec<RenderNode>,
}

/// Model of a render node.
pub struct RenderNodeView {
    pub node: int,
    pub properties: ComputedValues,
    pub children: Seq<RenderNodeView>,
}

pub open spec fn render_node_view(n: RenderNode) -> RenderNodeView
    decreases n,
{
    RenderNodeView {
        node: n.node as int,
        properties: n.properties,
        children: render_nodes_view(n.children),
    }
}

/// The out-of-range guard keeps the closure total so the recursion visibly
/// terminates; indices past the length are never read.
pub open spec fn render_nodes_view(ns: Vec<RenderNode>) -> Seq<RenderNodeView>
    decreases ns,
{
    Seq::new(
        ns@.len(),
        |i: int|
            if 0 <= i < ns@.len() {
                render_node_view(ns[i])
            } else {
                RenderNodeView {
                    node: 0,
                    properties: ComputedValues {
                        background_color: initial_value(Property::BackgroundColor),
                        color: initial_value(Property::Color),
                        display: initial_value(Property::Display),
                    },
                    children: Seq::empty(),
                }
            },
    )
}

impl View for RenderNode {
    type V = RenderNodeView;

    open spec fn view(&self) -> RenderNodeView {
        render_node_view(*self)
    }
}

/// The effect of one declaration under the full component-value parser:
/// a recognized property with a parsable value (keyword or `rgba` function)
/// overwrites the entry; anything else is dropped silently.
pub open spec fn apply_ctx_declaration_spec(props: Properties, decl: Declaration) -> Properties {
    match property_from_name(decl.name@) {
        Some(p) => match parse_value_cvs_spec(p, cv_vec_view(decl.value)) {
            Some(v) => props.insert_spec(p, v),
            None => props,
        },
        None => props,
    }
}

/// The declarations from index `i` on, applied in order.
pub open spec fn apply_ctx_declarations_spec(
    props: Properties,
    decls: Seq<Declaration>,
    i: int,
) -> Properties
    decreases decls.len() - i,
{
    if 0 <= i < decls.len() {
        apply_ctx_declarations_spec(apply_ctx_declaration_spec(props, decls[i]), decls, i + 1)
    } else {
        props
    }
}

/// The contextual rules from index `i` on, applied in order: a rule whose
/// selector list matches the node overwrites entries with its declared
/// values, so later rules win.
pub open spec fn apply_ctx_rules_spec(
    dom: Dom,
    node: int,
    rules: Seq<ContextualRule>,
    i: int,
    props: Properties,
) -> Properties
    decreases rules.len() - i,
{
    if 0 <= i < rules.len() {
        let props2 = if selectors_match(dom, node, rules[i].inner.selectors@) {
            apply_ctx_declarations_spec(props, rules[i].inner.declarations@, 0)
        } else {
            props
        };
        apply_ctx_rules_spec(dom, node, rules, i + 1, props2)
    } else {
        props
    }
}

/// The declared values the rules in scope supply for a node: empty for a
/// text node (text carries no own style), else every matching rule's
/// declarations in order.
pub open spec fn render_props_spec(dom: Dom, node: int, rules: Seq<ContextualRule>) -> Properties {
    if dom.is_text(node) {
        Properties { background_color: None, color: None, display: None }
    } else {
        apply_ctx_rules_spec(
            dom,
            node,
            rules,
            0,
            Properties { background_color: None, color: None, display: None },
        )
    }
}

/// The specified-to-computed resolution of one property: a declared value
/// wins; otherwise an inheritable property takes the parent's computed
/// value; otherwise the property's initial value applies.
pub open spec fn computed_value_spec(
    props: Properties,
    parent: Option<ComputedValues>,
    property: Property,
) -> Value {
    match props.get_spec(property) {
        Some(v) => v,
        None => if is_inheritable(property) {
            match parent {
                Some(pc) => pc.get_spec(property),
                None => initial_value(property),
            }
        } else {
            initial_value(property)
        },
    }
}

/// The whole computed map: every known property resolved.
pub open spec fn compute_styles_spec(
    props: Properties,
    parent: Option<ComputedValues>,
) -> ComputedValues {
    ComputedValues {
        background_color: computed_value_spec(props, parent, Property::BackgroundColor),
        color: computed_value_spec(props, parent, Property::Color),
        display: computed_value_spec(props, parent, Property::Display),
    }
}

/// Whether a node is the document-head element.
pub open spec fn is_head_element(dom: Dom, node: int) -> bool {
    dom.is_element(node) && dom.elem_at(node).tag_name@ == "head"@
}

/// Whether the declared values resolve `display` to `none`.
pub open spec fn display_none_specified(props: Properties) -> bool {
    props.display == Some(Value::Display(Display::NoneKeyword))
}

/// The render tree rooted at a node, under the given rules and the parent's
/// computed style: nothing for a head element or a `display: none` node
/// (those subtrees are pruned entirely), else a node carrying the computed
/// style with the children's trees in DOM order, skipping pruned ones.
pub open spec fn render_tree_spec(
    dom: Dom,
    node: int,
    rules: Seq<ContextualRule>,
    parent: Option<ComputedValues>,
) -> Option<RenderNodeView>
    decreases dom.node_cnt() - node, 2int,
{
    let props = render_props_spec(dom, node, rules);
    if is_head_element(dom, node) {
        None
    } else if display_none_specified(props) {
        None
    } else {
        let computed = compute_styles_spec(props, parent);
        Some(
            RenderNodeView {
                node,
                properties: computed,
                children: render_children_spec(
                    dom,
                    node,
                    rules,
                    computed,
                    dom.children_of(node),
                    0,
                ),
            },
        )
    }
}

/// The render trees of the children from index `k` on; pruned children
/// contribute nothing.
pub open spec fn render_children_spec(
    dom: Dom,
    node: int,
    rules: Seq<ContextualRule>,
    computed: ComputedValues,
    kids: Seq<int>,
    k: int,
) -> Seq<RenderNodeView>
    decreases dom.node_cnt() - node, 1int, kids.len() - k,
{
    if 0 <= k < kids.len() && node < dom.node_cnt() {
        let c = clip_child(kids[k], node, dom.node_cnt());
        let rest = render_children_spec(dom, node, rules, computed, kids, k + 1);
        match render_tree_spec(dom, c, rules, Some(computed)) {
            Some(sub) => seq![sub] + rest,
            None => rest,
        }
    } else {
        Seq::empty()
    }
}


/// Whether a render tree holds a node with the given DOM id, anywhere.
pub open spec fn tree_contains(rv: RenderNodeView, m: int) -> bool
    decreases rv,
{
    ||| rv.node == m
    ||| exists|i: int|
        0 <= i < rv.children.len() && tree_contains(#[trigger] rv.children[i], m)
}

/// Law: a head element, or a node whose declared `display` is `none`,
/// appears nowhere in any render tree built under the same rules — its
/// whole subtree is pruned, not just the node itself, whatever the rest of
/// its subtree declares.
pub proof fn lemma_pruned_node_absent(
    dom: Dom,
    node: int,
    rules: Seq<ContextualRule>,
    parent: Option<ComputedValues>,
    m: int,
)
    requires
        is_head_element(dom, m) || display_none_specified(render_props_spec(dom, m, rules)),
    ensures
        (match render_tree_spec(dom, node, rules, parent) {
            Some(rv) => !tree_contains(rv, m),
            None => true,
        }),
    decreases dom.node_cnt() - node, 2int,
{
    match render_tree_spec(dom, node, rules, parent) {
        Some(rv) => {
            assert(node != m);
            let computed = compute_styles_spec(render_props_spec(dom, node, rules), parent);
            lemma_pruned_node_absent_children(
                dom,
                node,
                rules,
                computed,
                dom.children_of(node),
                0,
                m,
            );
            assert(rv.children == render_children_spec(
                dom,
                node,
                rules,
                computed,
                dom.children_of(node),
                0,
            ));
            assert(forall|i: int|
                0 <= i < rv.children.len() ==> !tree_contains(#[trigger] rv.children[i], m));
        },
        None => {},
    }
}

/// The children's part of `lemma_pruned_node_absent`, mirroring the
/// recursion of `render_children_spec`.
proof fn lemma_pruned_node_absent_children(
    dom: Dom,
    node: int,
    rules: Seq<ContextualRule>,
    computed: ComputedValues,
    kids: Seq<int>,
    k: int,
    m: int,
)
    requires
        is_head_element(dom, m) || display_none_specified(render_props_spec(dom, m, rules)),
    ensures
        ({
            let cs = render_children_spec(dom, node, rules, computed, kids, k);
            forall|i: int| 0 <= i < cs.len() ==> !tree_contains(#[trigger] cs[i], m)
        }),
    decreases dom.node_cnt() - node, 1int, kids.len() - k,
{
    if 0 <= k < kids.len() && node < dom.node_cnt() {
        let c = clip_child(kids[k], node, dom.node_cnt());
        lemma_pruned_node_absent(dom, c, rules, Some(computed), m);
        lemma_pruned_node_absent_children(dom, node, rules, computed, kids, k + 1, m);
        let cs = render_children_spec(dom, node, rules, computed, kids, k);
        let rest = render_children_spec(dom, node, rules, computed, kids, k + 1);
        match render_tree_spec(dom, c, rules, Some(computed)) {
            Some(sub) => {
                assert(cs == seq![sub] + rest);
                assert(forall|i: int|
                    1 <= i < cs.len() ==> cs[i] == #[trigger] rest[i - 1]);
            },
            None => {},
        }
    }
}

/// Applies every matching contextual rule's declarations, in order: later
/// rules win; this models the cascade without specificity, deliberately.
pub fn apply_styles(dom: &Dom, node: usize, rules: &Vec<ContextualRule>) -> (r: Properties)
    ensures
        r == apply_ctx_rules_spec(
            *dom,
            node as int,
            rules@,
            0,
            Properties { background_color: None, color: None, display: None },
        ),
{
    let mut properties = Properties::new();
    let n = rules.len();
    let mut i: usize = 0;
    loop
        invariant_except_break
            0 <= i <= n,
            n == rules@.len(),
            apply_ctx_rules_spec(
                *dom,
                node as int,
                rules@,
                0,
                Properties { background_color: None, color: None, display: None },
            ) == apply_ctx_rules_spec(*dom, node as int, rules@, i as int, properties),
        ensures
            properties == apply_ctx_rules_spec(
                *dom,
                node as int,
                rules@,
                0,
                Properties { background_color: None, color: None, display: None },
            ),
        decreases n - i,
    {
        if i >= n {
            break ;
        }
        let rule = &rules[i];
        if matches_selectors_at(dom, node, &rule.inner.selectors) {
            let m = rule.inner.declarations.len();
            let mut j: usize = 0;
            let ghost props_at_rule = properties;
            loop
                invariant_except_break
                    0 <= j <= m,
                    0 <= i < rules@.len(),
                    m == rule.inner.declarations@.len(),
                    rule == &rules@[i as int],
                    apply_ctx_declarations_spec(props_at_rule, rule.inner.declarations@, 0)
                        == apply_ctx_declarations_spec(
                        properties,
                        rule.inner.declarations@,
                        j as int,
                    ),
                ensures
                    properties == apply_ctx_declarations_spec(
                        props_at_rule,
                        rules@[i as int].inner.declarations@,
                        0,
                    ),
                decreases m - j,
            {
                if j >= m {
                    break ;
                }
                let declaration = &rule.inner.declarations[j];
                let ghost props_pre = properties;
                match Property::parse(declaration.name.as_str()) {
                    Some(property) => {
                        match parse_value_cvs(&property, &declaration.value) {
                            Some(value) => {
                                properties.insert(property, value);
                            },
                            None => {},
                        }
                    },
                    None => {},
                }
                proof {
                    assert(properties == apply_ctx_declaration_spec(
                        props_pre,
                        rule.inner.declarations@[j as int],
                    ));
                }
                j = j + 1;
            }
        }
        i = i + 1;
    }
    properties
}

/// Resolves declared values into the node's computed style: a declared
/// value wins; an undeclared inheritable property takes the parent's
/// computed value; anything else falls back to the property's initial
/// value. The per-property computation step is the identity for every
/// property in this set.
pub fn compute_styles(properties: Properties, parent: Option<&ComputedValues>) -> (r:
    ComputedValues)
    ensures
        r == compute_styles_spec(
            properties,
            match parent {
                Some(pc) => Some(*pc),
                None => None,
            },
        ),
        forall|p: Property|
            properties.get_spec(p) is Some ==> #[trigger] r.get_spec(p)
                == properties.get_spec(p)->Some_0,
        forall|p: Property|
            properties.get_spec(p) is None && is_inheritable(p) && parent is Some
                ==> #[trigger] r.get_spec(p) == parent->Some_0.get_spec(p),
        forall|p: Property|
            properties.get_spec(p) is None && (!is_inheritable(p) || parent is None)
                ==> #[trigger] r.get_spec(p) == initial_value(p),
{
    let background_color = match properties.get(&Property::BackgroundColor) {
        Some(v) => v,
        None => Value::initial(&Property::BackgroundColor),
    };
    let color = match properties.get(&Property::Color) {
        Some(v) => v,
        None => match parent {
            Some(pc) => pc.get(&Property::Color),
            None => Value::initial(&Property::Color),
        },
    };
    let display = match properties.get(&Property::Display) {
        Some(v) => v,
        None => Value::initial(&Property::Display),
    };
    let r = ComputedValues { background_color, color, display };
    proof {
        assert forall|p: Property| true implies #[trigger] r.get_spec(p) == computed_value_spec(
            properties,
            match parent {
                Some(pc) => Some(*pc),
                None => None,
            },
            p,
        ) by {
            match p {
                Property::BackgroundColor => {},
                Property::Color => {},
                Property::Display => {},
            }
        }
    }
    r
}

impl RenderNode {
    /// The computed value of a property. The computed map is total, so the
    /// lookup never falls back; inheritance was resolved at construction.
    pub fn get_style(&self, property: &Property) -> (r: Value)
        ensures
            r == self.properties.get_spec(*property),
    {
        self.properties.get(property)
    }
}

/// Builds the render tree for the subtree rooted at a node. A head element
/// or a node whose declared `display` is `none` yields nothing, and none of
/// its descendants appear anywhere in the result; otherwise the node's
/// computed style is resolved against the parent's and the DOM children are
/// rendered in order, keeping only the unpruned ones.
pub fn build_render_tree(
    dom: &Dom,
    node: usize,
    rules: &Vec<ContextualRule>,
    parent: Option<&ComputedValues>,
) -> (r: Option<RenderNode>)
    ensures
        ({
            let spec_result = render_tree_spec(
                *dom,
                node as int,
                rules@,
                match parent {
                    Some(pc) => Some(*pc),
                    None => None,
                },
            );
            match r {
                Some(rn) => spec_result == Some(rn@),
                None => spec_result is None,
            }
        }),
        r is None <==> (is_head_element(*dom, node as int) || display_none_specified(
            render_props_spec(*dom, node as int, rules@),
        )),
    decreases dom.node_cnt() - node,
{
    let properties = if dom.is_text_node(node) {
        Properties::new()
    } else {
        apply_styles(dom, node, rules)
    };
    proof {
        assert(properties == render_props_spec(*dom, node as int, rules@));
    }
    match dom.get_element(node) {
        Some(element) => {
            if element.tag_name == String::from_str("head") {
                return None;
            }
        },
        None => {},
    }
    let display_is_none = match properties.get(&Property::Display) {
        Some(Value::Display(Display::NoneKeyword)) => true,
        _ => false,
    };
    if display_is_none {
        return None;
    }
    let computed = compute_styles(properties, parent);
    let kids = dom.children(node);
    let mut children: Vec<RenderNode> = Vec::new();
    let n = kids.len();
    let mut k: usize = 0;
    proof {
        assert(render_nodes_view(children) =~= Seq::<RenderNodeView>::empty());
    }
    loop
        invariant_except_break
            0 <= k <= n,
            n == kids@.len(),
            crate::dom::ids_view(kids) == dom.children_of(node as int),
            forall|j: int| 0 <= j < kids@.len() ==> node < #[trigger] kids@[j] < dom.node_cnt(),
            render_children_spec(
                *dom,
                node as int,
                rules@,
                computed,
                dom.children_of(node as int),
                0,
            ) == render_nodes_view(children) + render_children_spec(
                *dom,
                node as int,
                rules@,
                computed,
                dom.children_of(node as int),
                k as int,
            ),
        ensures
            render_nodes_view(children) == render_children_spec(
                *dom,
                node as int,
                rules@,
                computed,
                dom.children_of(node as int),
                0,
            ),
        decreases n - k,
    {
        if k >= n {
            proof {
                assert(render_nodes_view(children) + Seq::<RenderNodeView>::empty()
                    =~= render_nodes_view(children));
            }
            break ;
        }
        let ghost children_pre = children;
        let child = kids[k];
        proof {
            assert(clip_child(
                dom.children_of(node as int)[k as int],
                node as int,
                dom.node_cnt(),
            ) == child as int);
        }
        match build_render_tree(dom, child, rules, Some(&computed)) {
            Some(sub) => {
                children.push(sub);
                proof {
                    assert(render_nodes_view(children) =~= render_nodes_view(children_pre).push(
                        children[children.len() - 1]@,
                    ));
                    assert(render_nodes_view(children_pre) + (seq![
                        render_tree_spec(
                            *dom,
                            child as int,
                            rules@,
                            Some(computed),
                        )->Some_0,
                    ] + render_children_spec(
                        *dom,
                        node as int,
                        rules@,
                        computed,
                        dom.children_of(node as int),
                        k as int + 1,
                    )) =~= render_nodes_view(children) + render_children_spec(
                        *dom,
                        node as int,
                        rules@,
                        computed,
                        dom.children_of(node as int),
                        k as int + 1,
                    ));
                }
            },
            None => {},
        }
        k = k + 1;
    }
    Some(RenderNode { node, properties: computed, children })
}

/// Law: rebuilding the render tree from an unchanged DOM, unchanged rules
/// and an unchanged parent context produces a structurally and value-equal
/// tree. `build_render_tree`'s contract pins its result to a function of
/// those inputs alone, so no hidden mutable state can leak between builds.
pub proof fn lemma_build_render_tree_idempotent(
    dom: Dom,
    node: int,
    rules: Seq<ContextualRule>,
    parent: Option<ComputedValues>,
    first: Option<RenderNodeView>,
    second: Option<RenderNodeView>,
)
    requires
        first == render_tree_spec(dom, node, rules, parent),
        second == render_tree_spec(dom, node, rules, parent),
    ensures
        first == second,
{
}

} // verus!

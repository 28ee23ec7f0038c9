//! The selector-matching engine: walks a selector's (sequence, combinator)
//! pairs from rightmost to leftmost against the DOM's ancestor and sibling
//! chains. A candidate that is not an element fails its sequence check; a
//! missing parent or sibling fails the whole selector.

use vstd::prelude::*;

use crate::dom::{Dom, ElementData};
use crate::selector::{Combinator, Selector, SimpleSelector, SimpleSelectorSequence, SimpleSelectorType};

verus! {

/// Whether one simple selector matches an element: the universal selector
/// always, a type selector on exact tag-name equality, a class selector on
/// class-list membership, an id selector on exact id equality. A kind that
/// needs a name but has none matches nothing.
pub open spec fn simple_selector_matches(el: ElementData, sel: SimpleSelector) -> bool {
    match sel.selector_type {
        SimpleSelectorType::Universal => true,
        SimpleSelectorType::Type => match sel.value {
            Some(v) => el.tag_name@ == v@,
            None => false,
        },
        SimpleSelectorType::Class => match sel.value {
            Some(v) => el.classes().contains(v@),
            None => false,
        },
        SimpleSelectorType::ID => match sel.value {
            Some(v) => el.id_spec() == v@,
            None => false,
        },
    }
}

/// Whether a simple-selector sequence matches a node: the node must be an
/// element and every simple selector in the sequence must match it.
pub open spec fn sequence_matches(dom: Dom, n: int, sseq: SimpleSelectorSequence) -> bool {
    &&& dom.is_element(n)
    &&& forall|i: int|
        0 <= i < sseq.values@.len() ==> simple_selector_matches(
            dom.elem_at(n),
            #[trigger] sseq.values@[i],
        )
}

/// The nearest proper ancestor matching the sequence. Parent links point
/// strictly backwards in a well-formed DOM, so the out-of-range arm never
/// fires there; it keeps the recursion visibly finite.
pub open spec fn first_matching_ancestor(
    dom: Dom,
    n: int,
    sseq: SimpleSelectorSequence,
) -> Option<int>
    decreases n,
{
    match dom.parent_of_spec(n) {
        Some(p) => if 0 <= p < n {
            if sequence_matches(dom, p, sseq) {
                Some(p)
            } else {
                first_matching_ancestor(dom, p, sseq)
            }
        } else {
            None
        },
        None => None,
    }
}

/// The nearest preceding sibling matching the sequence.
pub open spec fn first_matching_prev_sibling(
    dom: Dom,
    n: int,
    sseq: SimpleSelectorSequence,
) -> Option<int>
    decreases n,
{
    match dom.prev_sibling_spec(n) {
        Some(p) => if 0 <= p < n {
            if sequence_matches(dom, p, sseq) {
                Some(p)
            } else {
                first_matching_prev_sibling(dom, p, sseq)
            }
        } else {
            None
        },
        None => None,
    }
}

/// Whether the first `k` (sequence, combinator) pairs match, with the
/// rightmost processed first against the candidate node: no combinator keeps
/// the candidate, `Child` and `NextSibling` step once, `Descendant` and
/// `SubsequentSibling` walk to the first matching ancestor or preceding
/// sibling; a missing step fails the match.
pub open spec fn match_pairs(
    dom: Dom,
    cand: int,
    pairs: Seq<(SimpleSelectorSequence, Option<Combinator>)>,
    k: int,
) -> bool
    decreases k,
{
    if k <= 0 {
        true
    } else {
        let (sseq, comb) = pairs[k - 1];
        match comb {
            None => sequence_matches(dom, cand, sseq) && match_pairs(dom, cand, pairs, k - 1),
            Some(Combinator::Child) => match dom.parent_of_spec(cand) {
                Some(p) => sequence_matches(dom, p, sseq) && match_pairs(dom, p, pairs, k - 1),
                None => false,
            },
            Some(Combinator::Descendant) => match first_matching_ancestor(dom, cand, sseq) {
                Some(a) => match_pairs(dom, a, pairs, k - 1),
                None => false,
            },
            Some(Combinator::NextSibling) => match dom.prev_sibling_spec(cand) {
                Some(p) => sequence_matches(dom, p, sseq) && match_pairs(dom, p, pairs, k - 1),
                None => false,
            },
            Some(Combinator::SubsequentSibling) => match first_matching_prev_sibling(
                dom,
                cand,
                sseq,
            ) {
                Some(p) => match_pairs(dom, p, pairs, k - 1),
                None => false,
            },
        }
    }
}

/// Whether a whole selector matches a node.
pub open spec fn selector_matches(dom: Dom, n: int, selector: Selector) -> bool {
    match_pairs(dom, n, selector.values@, selector.values@.len() as int)
}

/// Whether at least one selector of the list matches (selector lists are
/// OR-combined).
pub open spec fn selectors_match(dom: Dom, n: int, selectors: Seq<Selector>) -> bool {
    exists|i: int| 0 <= i < selectors.len() && selector_matches(dom, n, #[trigger] selectors[i])
}

/// Whether one simple selector matches an element.
pub fn is_match_simple_selector(element: &ElementData, selector: &SimpleSelector) -> (r: bool)
    ensures
        r == simple_selector_matches(*element, *selector),
{
    match selector.selector_type {
        SimpleSelectorType::Universal => true,
        SimpleSelectorType::Type => match &selector.value {
            Some(v) => element.tag_name == *v,
            None => false,
        },
        SimpleSelectorType::Class => match &selector.value {
            Some(v) => element.has_class(v),
            None => false,
        },
        SimpleSelectorType::ID => match &selector.value {
            Some(v) => {
                let id = element.id();
                id == *v
            },
            None => false,
        },
    }
}

/// Whether a simple-selector sequence matches a node, for the candidates
/// the combinator walks produce: an ancestor or preceding sibling can be a
/// text node, which matches nothing.
fn matches_sequence_at(dom: &Dom, node: usize, sequence: &SimpleSelectorSequence) -> (r: bool)
    ensures
        r == sequence_matches(*dom, node as int, *sequence),
{
    let element = match dom.get_element(node) {
        Some(el) => el,
        None => {
            return false;
        },
    };
    let n = sequence.values.len();
    let mut i: usize = 0;
    loop
        invariant_except_break
            0 <= i <= n,
            n == sequence.values@.len(),
            dom.is_element(node as int),
            *element == dom.elem_at(node as int),
            forall|j: int|
                0 <= j < i ==> simple_selector_matches(
                    dom.elem_at(node as int),
                    #[trigger] sequence.values@[j],
                ),
        ensures
            (i == n && sequence_matches(*dom, node as int, *sequence)) || (i < n
                && !simple_selector_matches(dom.elem_at(node as int), sequence.values@[i as int])),
        decreases n - i,
    {
        if i >= n {
            break ;
        }
        if !is_match_simple_selector(element, &sequence.values[i]) {
            break ;
        }
        i = i + 1;
    }
    i == sequence.values.len()
}

/// The nearest proper ancestor matching the sequence, if any.
fn find_matching_ancestor(dom: &Dom, from: usize, sseq: &SimpleSelectorSequence) -> (r: Option<
    usize,
>)
    ensures
        (match r {
            Some(a) => first_matching_ancestor(*dom, from as int, *sseq) == Some(a as int),
            None => first_matching_ancestor(*dom, from as int, *sseq) is None,
        }),
{
    let mut cur = from;
    let mut found: Option<usize> = None;
    loop
        invariant_except_break
            first_matching_ancestor(*dom, from as int, *sseq) == first_matching_ancestor(
                *dom,
                cur as int,
                *sseq,
            ),
        ensures
            (match found {
                Some(a) => first_matching_ancestor(*dom, from as int, *sseq) == Some(a as int),
                None => first_matching_ancestor(*dom, from as int, *sseq) is None,
            }),
        decreases cur,
    {
        match dom.parent_of(cur) {
            None => {
                found = None;
                break ;
            },
            Some(p) => {
                if matches_sequence_at(dom, p, sseq) {
                    found = Some(p);
                    break ;
                }
                cur = p;
            },
        }
    }
    found
}

/// The nearest preceding sibling matching the sequence, if any.
fn find_matching_prev_sibling(dom: &Dom, from: usize, sseq: &SimpleSelectorSequence) -> (r: Option<
    usize,
>)
    ensures
        (match r {
            Some(a) => first_matching_prev_sibling(*dom, from as int, *sseq) == Some(a as int),
            None => first_matching_prev_sibling(*dom, from as int, *sseq) is None,
        }),
{
    let mut cur = from;
    let mut found: Option<usize> = None;
    loop
        invariant_except_break
            first_matching_prev_sibling(*dom, from as int, *sseq) == first_matching_prev_sibling(
                *dom,
                cur as int,
                *sseq,
            ),
        ensures
            (match found {
                Some(a) => first_matching_prev_sibling(*dom, from as int, *sseq) == Some(
                    a as int,
                ),
                None => first_matching_prev_sibling(*dom, from as int, *sseq) is None,
            }),
        decreases cur,
    {
        match dom.prev_sibling_of(cur) {
            None => {
                found = None;
                break ;
            },
            Some(p) => {
                if matches_sequence_at(dom, p, sseq) {
                    found = Some(p);
                    break ;
                }
                cur = p;
            },
        }
    }
    found
}

/// Whether a selector matches the node: the pairs are walked from rightmost
/// (the subject) to leftmost, moving the candidate through the DOM as each
/// combinator demands.
fn matches_selector_at(dom: &Dom, element: usize, selector: &Selector) -> (r: bool)
    ensures
        r == selector_matches(*dom, element as int, *selector),
{
    let pairs = &selector.values;
    let mut k = pairs.len();
    let mut cand = element;
    let mut result = false;
    loop
        invariant_except_break
            0 <= k <= pairs@.len(),
            pairs == &selector.values,
            selector_matches(*dom, element as int, *selector) == match_pairs(
                *dom,
                cand as int,
                selector.values@,
                k as int,
            ),
        ensures
            result == selector_matches(*dom, element as int, *selector),
        decreases k,
    {
        if k == 0 {
            result = true;
            break ;
        }
        let pair = &pairs[k - 1];
        let sseq = &pair.0;
        match &pair.1 {
            None => {
                if !matches_sequence_at(dom, cand, sseq) {
                    result = false;
                    break ;
                }
            },
            Some(Combinator::Child) => {
                match dom.parent_of(cand) {
                    Some(p) => {
                        if !matches_sequence_at(dom, p, sseq) {
                            result = false;
                            break ;
                        }
                        cand = p;
                    },
                    None => {
                        result = false;
                        break ;
                    },
                }
            },
            Some(Combinator::Descendant) => {
                match find_matching_ancestor(dom, cand, sseq) {
                    Some(a) => {
                        cand = a;
                    },
                    None => {
                        result = false;
                        break ;
                    },
                }
            },
            Some(Combinator::NextSibling) => {
                match dom.prev_sibling_of(cand) {
                    Some(p) => {
                        if !matches_sequence_at(dom, p, sseq) {
                            result = false;
                            break ;
                        }
                        cand = p;
                    },
                    None => {
                        result = false;
                        break ;
                    },
                }
            },
            Some(Combinator::SubsequentSibling) => {
                match find_matching_prev_sibling(dom, cand, sseq) {
                    Some(p) => {
                        cand = p;
                    },
                    None => {
                        result = false;
                        break ;
                    },
                }
            },
        }
        k = k - 1;
    }
    result
}

/// Whether at least one selector of the list matches the node; the cascade
/// calls this per DOM node, elements only by construction.
pub(crate) fn matches_selectors_at(dom: &Dom, element: usize, selectors: &Vec<Selector>) -> (r:
    bool)
    ensures
        r == selectors_match(*dom, element as int, selectors@),
{
    let n = selectors.len();
    let mut i: usize = 0;
    let mut hit = false;
    loop
        invariant_except_break
            0 <= i <= n,
            n == selectors@.len(),
            forall|j: int|
                0 <= j < i ==> !selector_matches(*dom, element as int, #[trigger] selectors@[j]),
        ensures
            hit == selectors_match(*dom, element as int, selectors@),
        decreases n - i,
    {
        if i >= n {
            hit = false;
            break ;
        }
        if matches_selector_at(dom, element, &selectors[i]) {
            hit = true;
            break ;
        }
        i = i + 1;
    }
    hit
}

/// Whether a simple-selector sequence matches the element: every simple
/// selector in it must match. The subject must expose an element view;
/// calling this on a non-element node is a caller contract breach, ruled
/// out here rather than tolerated.
pub fn is_match_simple_selector_seq(dom: &Dom, node: usize, sequence: &SimpleSelectorSequence) -> (r:
    bool)
    requires
        dom.is_element(node as int),
    ensures
        r == sequence_matches(*dom, node as int, *sequence),
{
    matches_sequence_at(dom, node, sequence)
}

/// Whether a selector matches the element, walking its (sequence,
/// combinator) pairs from rightmost to leftmost. The subject must expose an
/// element view; calling this on a non-element node is a caller contract
/// breach, ruled out here rather than tolerated. Candidates the walks reach
/// (ancestors, preceding siblings) may be non-elements and match nothing.
pub fn is_match_selector(dom: &Dom, element: usize, selector: &Selector) -> (r: bool)
    requires
        dom.is_element(element as int),
    ensures
        r == selector_matches(*dom, element as int, *selector),
{
    matches_selector_at(dom, element, selector)
}

/// Whether at least one selector of the list matches the element (selector
/// lists are OR-combined). The subject must expose an element view; calling
/// this on a non-element node is a caller contract breach, ruled out here
/// rather than tolerated.
pub fn is_match_selectors(dom: &Dom, element: usize, selectors: &Vec<Selector>) -> (r: bool)
    requires
        dom.is_element(element as int),
    ensures
        r == selectors_match(*dom, element as int, selectors@),
{
    matches_selectors_at(dom, element, selectors)
}

} // verus!

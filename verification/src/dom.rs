//! The DOM collaborator, modeled as an append-only arena: each node holds its
//! data and a parent link pointing strictly backwards, so ancestor chains are
//! finite and acyclic by construction. Child lists and previous siblings are
//! derived from the parent links in insertion order.

use vstd::prelude::*;

verus! {

/// An element's own data: tag name, attributes, and its class list.
#[derive(Debug)]
pub struct ElementData {
    pub tag_name: String,
    pub attributes: Vec<(String, String)>,
    pub class_list: Vec<String>,
}

/// What a DOM node is: an element or a text node.
#[derive(Debug)]
pub enum NodeData {
    Element(ElementData),
    Text(String),
}

/// One arena slot: the node's data and its parent link.
#[derive(Debug)]
pub struct DomNode {
    pub data: NodeData,
    pub parent: Option<usize>,
}

/// The DOM tree: an arena of nodes where every parent index is smaller than
/// its child's index.
#[derive(Debug)]
pub struct Dom {
    nodes: Vec<DomNode>,
}

/// A vector of node ids as a sequence of integers.
pub open spec fn ids_view(v: Vec<usize>) -> Seq<int> {
    Seq::new(v@.len(), |i: int| v@[i] as int)
}

/// First attribute entry with the given name, if any.
pub open spec fn attr_lookup(attrs: Seq<(String, String)>, name: Seq<char>) -> Option<Seq<char>>
    decreases attrs.len(),
{
    if attrs.len() == 0 {
        None
    } else if attrs[0].0@ == name {
        Some(attrs[0].1@)
    } else {
        attr_lookup(attrs.skip(1), name)
    }
}

impl ElementData {
    /// The value of an attribute, if present.
    pub open spec fn attr_of(&self, name: Seq<char>) -> Option<Seq<char>> {
        attr_lookup(self.attributes@, name)
    }

    /// The id attribute's value; absent means the empty string.
    pub open spec fn id_spec(&self) -> Seq<char> {
        match self.attr_of("id"@) {
            Some(v) => v,
            None => Seq::empty(),
        }
    }

    /// The element's classes.
    pub open spec fn classes(&self) -> Seq<Seq<char>> {
        self.class_list.deep_view()
    }

    /// A fresh element with the given tag name and no attributes.
    pub fn new(tag_name: String) -> (r: Self)
        ensures
            r.tag_name@ == tag_name@,
            r.attributes@.len() == 0,
            r.classes() == Seq::<Seq<char>>::empty(),
    {
        let r = Self { tag_name, attributes: Vec::new(), class_list: Vec::new() };
        proof {
            assert(r.classes() =~= Seq::<Seq<char>>::empty());
        }
        r
    }

    /// Sets an attribute: the new entry shadows any earlier one of the same
    /// name; every other attribute keeps its value.
    pub fn set_attribute(&mut self, name: &str, value: &str)
        ensures
            final(self).tag_name == old(self).tag_name,
            final(self).classes() == old(self).classes(),
            final(self).attr_of(name@) == Some(value@),
            forall|n: Seq<char>| n != name@ ==> final(self).attr_of(n) == old(self).attr_of(n),
    {
        let entry = (name.to_owned(), value.to_owned());
        self.attributes.insert(0, entry);
        proof {
            assert(self.attributes@.skip(1) =~= old(self).attributes@);
        }
    }

    /// The value of an attribute, if present (first match wins).
    pub fn get_attribute(&self, name: &str) -> (r: Option<String>)
        ensures
            match r {
                Some(v) => self.attr_of(name@) == Some(v@),
                None => self.attr_of(name@) is None,
            },
    {
        let name_owned = name.to_owned();
        let n = self.attributes.len();
        let mut i: usize = 0;
        proof {
            assert(self.attributes@.skip(0) =~= self.attributes@);
        }
        loop
            invariant_except_break
                0 <= i <= n,
                n == self.attributes@.len(),
                name_owned@ == name@,
                attr_lookup(self.attributes@, name@) == attr_lookup(
                    self.attributes@.skip(i as int),
                    name@,
                ),
            ensures
                i <= n,
                i < n ==> attr_lookup(self.attributes@, name@) == Some(
                    self.attributes@[i as int].1@,
                ) && self.attributes@[i as int].0@ == name@,
                i == n ==> attr_lookup(self.attributes@, name@) is None,
            decreases n - i,
        {
            if i >= n {
                proof {
                    assert(self.attributes@.skip(i as int).len() == 0);
                }
                break ;
            }
            let hit = self.attributes[i].0 == name_owned;
            proof {
                assert(self.attributes@.skip(i as int)[0] == self.attributes@[i as int]);
            }
            if hit {
                break ;
            }
            proof {
                assert(self.attributes@.skip(i as int).skip(1) =~= self.attributes@.skip(
                    i as int + 1,
                ));
            }
            i = i + 1;
        }
        if i < self.attributes.len() {
            Some(self.attributes[i].1.clone())
        } else {
            None
        }
    }

    /// The id attribute's value; absent means the empty string.
    pub fn id(&self) -> (r: String)
        ensures
            r@ == self.id_spec(),
    {
        match self.get_attribute("id") {
            Some(v) => v,
            None => String::new(),
        }
    }

    /// Adds a class to the element's class list.
    pub fn add_class(&mut self, class: String)
        ensures
            final(self).tag_name == old(self).tag_name,
            final(self).attributes == old(self).attributes,
            final(self).classes() == old(self).classes().push(class@),
    {
        self.class_list.push(class);
        proof {
            assert(self.classes() =~= old(self).classes().push(class@));
        }
    }

    /// Whether the class list holds the given class.
    pub fn has_class(&self, class: &String) -> (r: bool)
        ensures
            r == self.classes().contains(class@),
    {
        let n = self.class_list.len();
        let mut i: usize = 0;
        loop
            invariant_except_break
                0 <= i <= n,
                n == self.class_list@.len(),
                forall|j: int| 0 <= j < i ==> self.classes()[j] != class@,
            ensures
                (i < n && self.classes()[i as int] == class@) || (i == n && forall|j: int|
                    0 <= j < n ==> self.classes()[j] != class@),
            decreases n - i,
        {
            if i >= n {
                break ;
            }
            let hit = self.class_list[i] == *class;
            proof {
                assert(self.classes()[i as int] == self.class_list@[i as int]@);
            }
            if hit {
                break ;
            }
            i = i + 1;
        }
        if i < self.class_list.len() {
            proof {
                assert(self.classes().contains(class@));
            }
            true
        } else {
            proof {
                assert(forall|j: int| 0 <= j < self.classes().len() ==> self.classes()[j]
                    != class@);
            }
            false
        }
    }
}

impl Dom {
    /// How many nodes the arena holds.
    pub closed spec fn node_cnt(&self) -> int {
        self.nodes@.len() as int
    }

    /// The parent link of a node; out of range there is none.
    pub closed spec fn parent_of_spec(&self, n: int) -> Option<int> {
        if 0 <= n < self.node_cnt() {
            match self.nodes@[n].parent {
                Some(p) => Some(p as int),
                None => None,
            }
        } else {
            None
        }
    }

    /// Whether a node is an element node.
    pub closed spec fn is_element(&self, n: int) -> bool {
        0 <= n < self.node_cnt() && self.nodes@[n].data is Element
    }

    /// Whether a node is a text node.
    pub closed spec fn is_text(&self, n: int) -> bool {
        0 <= n < self.node_cnt() && self.nodes@[n].data is Text
    }

    /// The element data of an element node.
    pub closed spec fn elem_at(&self, n: int) -> ElementData
        recommends
            self.is_element(n),
    {
        self.nodes@[n].data->Element_0
    }

    /// The text of a text node.
    pub closed spec fn text_at(&self, n: int) -> Seq<char>
        recommends
            self.is_text(n),
    {
        self.nodes@[n].data->Text_0@
    }

    /// Every parent link points strictly backwards, so every ancestor chain
    /// is finite and acyclic.
    #[verifier::type_invariant]
    pub closed spec fn wf(&self) -> bool {
        forall|n: int|
            0 <= n < self.nodes@.len() ==> match (#[trigger] self.nodes@[n]).parent {
                Some(p) => p < n,
                None => true,
            }
    }

    /// An empty DOM.
    pub fn new() -> (r: Self)
        ensures
            r.node_cnt() == 0,
    {
        Self { nodes: Vec::new() }
    }

    /// The number of nodes.
    pub fn len(&self) -> (r: usize)
        ensures
            r == self.node_cnt(),
    {
        self.nodes.len()
    }

    /// Appends an element under the given parent (or as a root) and returns
    /// its node id. Ids are handed out in increasing order, so a parent's
    /// derived child list is in insertion order.
    pub fn append_element(&mut self, parent: Option<usize>, element: ElementData) -> (id: usize)
        requires
            match parent {
                Some(p) => p < old(self).node_cnt(),
                None => true,
            },
        ensures
            id == old(self).node_cnt(),
            final(self).node_cnt() == old(self).node_cnt() + 1,
            final(self).is_element(id as int),
            final(self).elem_at(id as int) == element,
            final(self).parent_of_spec(id as int) == (match parent {
                Some(p) => Some(p as int),
                None => None::<int>,
            }),
            forall|m: int| 0 <= m < old(self).node_cnt() ==> old(self).nodes_eq_at(*final(self), m),
    {
        proof {
            use_type_invariant(&*self);
        }
        let id = self.nodes.len();
        let mut nodes: Vec<DomNode> = Vec::new();
        std::mem::swap(&mut nodes, &mut self.nodes);
        nodes.push(DomNode { data: NodeData::Element(element), parent });
        self.nodes = nodes;
        id
    }

    /// Appends a text node under the given parent and returns its node id.
    pub fn append_text(&mut self, parent: Option<usize>, text: String) -> (id: usize)
        requires
            match parent {
                Some(p) => p < old(self).node_cnt(),
                None => true,
            },
        ensures
            id == old(self).node_cnt(),
            final(self).node_cnt() == old(self).node_cnt() + 1,
            final(self).is_text(id as int),
            final(self).text_at(id as int) == text@,
            final(self).parent_of_spec(id as int) == (match parent {
                Some(p) => Some(p as int),
                None => None::<int>,
            }),
            forall|m: int| 0 <= m < old(self).node_cnt() ==> old(self).nodes_eq_at(*final(self), m),
    {
        proof {
            use_type_invariant(&*self);
        }
        let id = self.nodes.len();
        let mut nodes: Vec<DomNode> = Vec::new();
        std::mem::swap(&mut nodes, &mut self.nodes);
        nodes.push(DomNode { data: NodeData::Text(text), parent });
        self.nodes = nodes;
        id
    }

    /// Whether two DOMs agree on the node at an index: same data and parent.
    pub open spec fn nodes_eq_at(&self, other: Dom, n: int) -> bool {
        &&& self.is_element(n) == other.is_element(n)
        &&& self.is_text(n) == other.is_text(n)
        &&& self.parent_of_spec(n) == other.parent_of_spec(n)
        &&& (self.is_element(n) ==> self.elem_at(n) == other.elem_at(n))
        &&& (self.is_text(n) ==> self.text_at(n) == other.text_at(n))
    }

    /// The parent of a node, if it has one.
    pub fn parent_of(&self, n: usize) -> (r: Option<usize>)
        ensures
            (match r {
                Some(p) => self.parent_of_spec(n as int) == Some(p as int),
                None => self.parent_of_spec(n as int) is None,
            }),
            match r {
                Some(p) => p < n,
                None => true,
            },
    {
        proof {
            use_type_invariant(&*self);
        }
        if n < self.nodes.len() {
            self.nodes[n].parent
        } else {
            None
        }
    }

    /// The element data of an element node.
    pub fn get_element(&self, n: usize) -> (r: Option<&ElementData>)
        ensures
            match r {
                Some(el) => self.is_element(n as int) && *el == self.elem_at(n as int),
                None => !self.is_element(n as int),
            },
    {
        if n < self.nodes.len() {
            match &self.nodes[n].data {
                NodeData::Element(el) => Some(el),
                NodeData::Text(_) => None,
            }
        } else {
            None
        }
    }

    /// Whether a node is a text node.
    pub fn is_text_node(&self, n: usize) -> (r: bool)
        ensures
            r == self.is_text(n as int),
    {
        if n < self.nodes.len() {
            match &self.nodes[n].data {
                NodeData::Text(_) => true,
                NodeData::Element(_) => false,
            }
        } else {
            false
        }
    }

    /// The node ids whose parent is `n`, among ids below `upto`, in order.
    pub open spec fn children_upto(&self, n: int, upto: int) -> Seq<int>
        decreases upto,
    {
        if upto <= 0 {
            Seq::empty()
        } else {
            let rest = self.children_upto(n, upto - 1);
            if self.parent_of_spec(upto - 1) == Some(n) {
                rest.push(upto - 1)
            } else {
                rest
            }
        }
    }

    /// A node's children: every node whose parent link is `n`, in insertion
    /// order.
    pub open spec fn children_of(&self, n: int) -> Seq<int> {
        self.children_upto(n, self.node_cnt())
    }

    /// The previous sibling: the nearest earlier node with the same parent.
    pub open spec fn prev_sibling_spec(&self, n: int) -> Option<int> {
        if 0 <= n < self.node_cnt() {
            self.prev_sibling_spec_walk(n, n)
        } else {
            None
        }
    }

    /// The nearest id below `m` with the same parent as `n`.
    pub open spec fn prev_sibling_spec_walk(&self, n: int, m: int) -> Option<int>
        decreases m,
    {
        if m <= 0 {
            None
        } else if self.parent_of_spec(m - 1) == self.parent_of_spec(n) {
            Some(m - 1)
        } else {
            self.prev_sibling_spec_walk(n, m - 1)
        }
    }

    /// The previous sibling of a node, if it has one.
    pub fn prev_sibling_of(&self, n: usize) -> (r: Option<usize>)
        ensures
            (match r {
                Some(p) => self.prev_sibling_spec(n as int) == Some(p as int),
                None => self.prev_sibling_spec(n as int) is None,
            }),
            match r {
                Some(p) => p < n,
                None => true,
            },
    {
        if n >= self.nodes.len() {
            return None;
        }
        let my_parent = self.parent_of(n);
        let mut m: usize = n;
        loop
            invariant_except_break
                0 <= m <= n < self.node_cnt(),
                my_parent == (match self.parent_of_spec(n as int) {
                    Some(p) => Some(p as usize),
                    None => None::<usize>,
                }),
                self.prev_sibling_spec_walk(n as int, n as int) == self.prev_sibling_spec_walk(
                    n as int,
                    m as int,
                ),
            ensures
                0 <= m <= n,
                ({
                    let w = self.prev_sibling_spec_walk(n as int, n as int);
                    if m > 0 {
                        w == Some(m - 1 as int)
                    } else {
                        w is None
                    }
                }),
            decreases m,
        {
            if m == 0 {
                break ;
            }
            let cand_parent = self.parent_of(m - 1);
            let same = match (cand_parent, my_parent) {
                (Some(a), Some(b)) => a == b,
                (None, None) => true,
                _ => false,
            };
            if same {
                break ;
            }
            m = m - 1;
        }
        if m > 0 {
            Some(m - 1)
        } else {
            None
        }
    }

    /// A node's children, in insertion order.
    pub fn children(&self, n: usize) -> (r: Vec<usize>)
        ensures
            ids_view(r) == self.children_of(n as int),
            forall|j: int| 0 <= j < r@.len() ==> n < #[trigger] r@[j] < self.node_cnt(),
    {
        proof {
            use_type_invariant(&*self);
        }
        let mut r: Vec<usize> = Vec::new();
        let count = self.nodes.len();
        let mut i: usize = 0;
        proof {
            assert(ids_view(r) =~= self.children_upto(n as int, 0));
        }
        loop
            invariant_except_break
                0 <= i <= count,
                count == self.node_cnt(),
                ids_view(r) == self.children_upto(n as int, i as int),
                forall|j: int| 0 <= j < r@.len() ==> n < #[trigger] r@[j] < self.node_cnt(),
            ensures
                ids_view(r) == self.children_of(n as int),
                forall|j: int| 0 <= j < r@.len() ==> n < #[trigger] r@[j] < self.node_cnt(),
            decreases count - i,
        {
            if i >= count {
                break ;
            }
            let ghost r_pre = r;
            let p = self.parent_of(i);
            let hit = match p {
                Some(pp) => pp == n,
                None => false,
            };
            if hit {
                proof {
                    use_type_invariant(&*self);
                }
                r.push(i);
                proof {
                    assert(ids_view(r) =~= ids_view(r_pre).push(i as int));
                }
            }
            i = i + 1;
        }
        r
    }
}

} // verus!

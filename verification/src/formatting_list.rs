//! The list of active formatting elements of the HTML tree builder: element
//! entries (DOM node ids) interleaved with markers, searched from the end.

use vstd::prelude::*;

use crate::dom::Dom;

verus! {

/// One entry: a formatting element (by DOM node id) or a marker.
#[derive(Clone, Copy, Debug, PartialEq, Eq, Structural)]
pub enum Entry {
    Element(usize),
    Marker,
}

/// The list of active formatting elements.
#[derive(Debug)]
pub struct ListOfActiveFormattingElements {
    pub entries: Vec<Entry>,
}

/// What clearing up to the last marker leaves: entries are popped until a
/// marker is popped too, or the list runs out.
pub open spec fn cleared_spec(entries: Seq<Entry>) -> Seq<Entry>
    decreases entries.len(),
{
    if entries.len() == 0 {
        entries
    } else if entries.last() is Marker {
        entries.drop_last()
    } else {
        cleared_spec(entries.drop_last())
    }
}

/// The index of the last entry holding the given node, or -1 if none.
pub open spec fn last_index_of(entries: Seq<Entry>, node: int) -> int
    decreases entries.len(),
{
    if entries.len() == 0 {
        -1
    } else if entries.last() == Entry::Element(node as usize) {
        entries.len() - 1
    } else {
        last_index_of(entries.drop_last(), node)
    }
}

/// The element found scanning from the end before any marker whose tag name
/// matches, if one exists.
pub open spec fn element_after_last_marker_spec(
    dom: Dom,
    entries: Seq<Entry>,
    tag: Seq<char>,
) -> Option<int>
    decreases entries.len(),
{
    if entries.len() == 0 {
        None
    } else {
        match entries.last() {
            Entry::Marker => None,
            Entry::Element(id) => if dom.is_element(id as int) && dom.elem_at(
                id as int,
            ).tag_name@ == tag {
                Some(id as int)
            } else {
                element_after_last_marker_spec(dom, entries.drop_last(), tag)
            },
        }
    }
}

impl ListOfActiveFormattingElements {
    /// An empty list.
    pub fn new() -> (r: Self)
        ensures
            r.entries@ == Seq::<Entry>::empty(),
    {
        Self { entries: Vec::new() }
    }

    /// Appends a marker.
    pub fn add_marker(&mut self)
        ensures
            final(self).entries@ == old(self).entries@.push(Entry::Marker),
    {
        self.entries.push(Entry::Marker);
    }

    /// Appends an element entry.
    pub fn add_element(&mut self, node: usize)
        ensures
            final(self).entries@ == old(self).entries@.push(Entry::Element(node)),
    {
        self.entries.push(Entry::Element(node));
    }

    /// The number of entries.
    pub fn len(&self) -> (r: usize)
        ensures
            r == self.entries@.len(),
    {
        self.entries.len()
    }

    /// Pops entries until a marker has been popped too, or the list is
    /// empty.
    pub fn clear_up_to_last_marker(&mut self)
        ensures
            final(self).entries@ == cleared_spec(old(self).entries@),
    {
        loop
            invariant_except_break
                cleared_spec(old(self).entries@) == cleared_spec(self.entries@),
            ensures
                self.entries@ == cleared_spec(old(self).entries@),
            decreases self.entries@.len(),
        {
            let popped = self.entries.pop();
            match popped {
                None => {
                    break ;
                },
                Some(Entry::Marker) => {
                    break ;
                },
                Some(Entry::Element(_)) => {},
            }
        }
    }

    /// The element with the given tag found scanning from the end, stopping
    /// at the first marker.
    pub fn get_element_after_last_marker(&self, dom: &Dom, element: &str) -> (r: Option<usize>)
        ensures
            (match r {
                Some(id) => element_after_last_marker_spec(*dom, self.entries@, element@) == Some(
                    id as int,
                ),
                None => element_after_last_marker_spec(*dom, self.entries@, element@) is None,
            }),
    {
        let tag = element.to_owned();
        let mut i = self.entries.len();
        let mut found: Option<usize> = None;
        proof {
            assert(self.entries@.take(i as int) =~= self.entries@);
        }
        loop
            invariant_except_break
                0 <= i <= self.entries@.len(),
                tag@ == element@,
                element_after_last_marker_spec(*dom, self.entries@, element@)
                    == element_after_last_marker_spec(
                    *dom,
                    self.entries@.take(i as int),
                    element@,
                ),
            ensures
                (match found {
                    Some(id) => element_after_last_marker_spec(*dom, self.entries@, element@)
                        == Some(id as int),
                    None => element_after_last_marker_spec(*dom, self.entries@, element@) is None,
                }),
            decreases i,
        {
            if i == 0 {
                proof {
                    assert(self.entries@.take(0).len() == 0);
                }
                found = None;
                break ;
            }
            proof {
                assert(self.entries@.take(i as int).last() == self.entries@[i - 1]);
                assert(self.entries@.take(i as int).drop_last() =~= self.entries@.take(i - 1));
            }
            match self.entries[i - 1] {
                Entry::Marker => {
                    found = None;
                    break ;
                },
                Entry::Element(id) => {
                    match dom.get_element(id) {
                        Some(el) => {
                            if el.tag_name == tag {
                                found = Some(id);
                                break ;
                            }
                        },
                        None => {},
                    }
                },
            }
            i = i - 1;
        }
        found
    }

    /// Removes the last entry holding the given node, if any.
    pub fn remove_element(&mut self, node: usize)
        ensures
            ({
                let j = last_index_of(old(self).entries@, node as int);
                if j >= 0 {
                    final(self).entries@ == old(self).entries@.remove(j)
                } else {
                    final(self).entries@ == old(self).entries@
                }
            }),
    {
        let mut i = self.entries.len();
        proof {
            assert(self.entries@.take(i as int) =~= self.entries@);
        }
        loop
            invariant_except_break
                0 <= i <= self.entries@.len(),
                self.entries@ == old(self).entries@,
                last_index_of(self.entries@, node as int) == last_index_of(
                    self.entries@.take(i as int),
                    node as int,
                ),
            ensures
                0 <= i <= self.entries@.len(),
                self.entries@ == old(self).entries@,
                (i > 0 && last_index_of(self.entries@, node as int) == i - 1) || (i == 0
                    && last_index_of(self.entries@, node as int) < 0),
            decreases i,
        {
            if i == 0 {
                proof {
                    assert(self.entries@.take(0).len() == 0);
                }
                break ;
            }
            proof {
                assert(self.entries@.take(i as int).last() == self.entries@[i - 1]);
                assert(self.entries@.take(i as int).drop_last() =~= self.entries@.take(i - 1));
            }
            let hit = match self.entries[i - 1] {
                Entry::Element(id) => id == node,
                Entry::Marker => false,
            };
            if hit {
                break ;
            }
            i = i - 1;
        }
        if i > 0 {
            let _removed = self.entries.remove(i - 1);
        }
    }

    /// Whether the list holds an entry for the given node.
    pub fn contains_node(&self, node: usize) -> (r: bool)
        ensures
            r == (last_index_of(self.entries@, node as int) >= 0),
    {
        match self.get_index_of_node(node) {
            Some(_) => true,
            None => false,
        }
    }

    /// The distance from the end of the last entry holding the given node:
    /// the last matching entry sits that many places before the final one.
    pub fn get_index_of_node(&self, node: usize) -> (r: Option<usize>)
        ensures
            ({
                let j = last_index_of(self.entries@, node as int);
                match r {
                    Some(i) => j >= 0 && i as int == self.entries@.len() - 1 - j,
                    None => j < 0,
                }
            }),
    {
        let mut i = self.entries.len();
        proof {
            assert(self.entries@.take(i as int) =~= self.entries@);
        }
        loop
            invariant_except_break
                0 <= i <= self.entries@.len(),
                last_index_of(self.entries@, node as int) == last_index_of(
                    self.entries@.take(i as int),
                    node as int,
                ),
            ensures
                0 <= i <= self.entries@.len(),
                (i > 0 && last_index_of(self.entries@, node as int) == i - 1) || (i == 0
                    && last_index_of(self.entries@, node as int) < 0),
            decreases i,
        {
            if i == 0 {
                proof {
                    assert(self.entries@.take(0).len() == 0);
                }
                break ;
            }
            proof {
                assert(self.entries@.take(i as int).last() == self.entries@[i - 1]);
                assert(self.entries@.take(i as int).drop_last() =~= self.entries@.take(i - 1));
            }
            let hit = match self.entries[i - 1] {
                Entry::Element(id) => id == node,
                Entry::Marker => false,
            };
            if hit {
                break ;
            }
            i = i - 1;
        }
        if i > 0 {
            Some(self.entries.len() - i)
        } else {
            None
        }
    }
}

} // verus!

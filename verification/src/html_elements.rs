//! Thin HTML element types over the DOM's element data: character data,
//! comments, and the element interfaces that read attributes.

use vstd::prelude::*;

use crate::dom::ElementData;

verus! {

/// A run of character data.
#[derive(Debug)]
pub struct CharacterData {
    pub data: String,
}

impl CharacterData {
    pub fn new(data: String) -> (r: Self)
        ensures
            r.data == data,
    {
        Self { data }
    }
}

/// A comment node: character data under a comment marker.
#[derive(Debug)]
pub struct Comment {
    pub character_data: CharacterData,
}

impl Comment {
    pub fn new(data: String) -> (r: Self)
        ensures
            r.character_data.data == data,
    {
        Self { character_data: CharacterData::new(data) }
    }
}

/// A generic HTML element: the element data it presents to the DOM.
#[derive(Debug)]
pub struct HTMLElement {
    pub element: ElementData,
}

impl HTMLElement {
    pub fn new(element: ElementData) -> (r: Self)
        ensures
            r.element == element,
    {
        Self { element }
    }
}

/// The `<base>` element: exposes its `href` and `target` attributes.
#[derive(Debug)]
pub struct HTMLBaseElement {
    pub html_element: HTMLElement,
}

impl HTMLBaseElement {
    pub fn new(html_element: HTMLElement) -> (r: Self)
        ensures
            r.html_element == html_element,
    {
        Self { html_element }
    }

    /// The `href` attribute's value; absent means the empty string.
    pub fn href(&self) -> (r: String)
        ensures
            r@ == (match self.html_element.element.attr_of("href"@) {
                Some(v) => v,
                None => Seq::<char>::empty(),
            }),
    {
        match self.html_element.element.get_attribute("href") {
            Some(v) => v,
            None => String::new(),
        }
    }

    /// The `target` attribute's value; absent means the empty string.
    pub fn target(&self) -> (r: String)
        ensures
            r@ == (match self.html_element.element.attr_of("target"@) {
                Some(v) => v,
                None => Seq::<char>::empty(),
            }),
    {
        match self.html_element.element.get_attribute("target") {
            Some(v) => v,
            None => String::new(),
        }
    }
}

/// The `<body>` element.
#[derive(Debug)]
pub struct HTMLBodyElement {
    pub html_element: HTMLElement,
}

impl HTMLBodyElement {
    pub fn new(html_element: HTMLElement) -> (r: Self)
        ensures
            r.html_element == html_element,
    {
        Self { html_element }
    }
}

} // verus!

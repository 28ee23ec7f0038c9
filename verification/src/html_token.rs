//! Lexical HTML tokens, as the HTML tokenizer collaborator emits them.

use vstd::prelude::*;

verus! {

/// One attribute of a tag token.
#[derive(Debug, PartialEq)]
pub struct Attribute {
    pub name: String,
    pub value: String,
    pub prefix: String,
    pub namespace: String,
}

/// One lexical HTML token.
#[derive(Debug, PartialEq)]
pub enum Token {
    DOCTYPE {
        name: Option<String>,
        public_identifier: Option<String>,
        system_identifier: Option<String>,
        force_quirks: bool,
    },
    Tag {
        tag_name: String,
        self_closing: bool,
        attributes: Vec<Attribute>,
        is_end_tag: bool,
        self_closing_acknowledged: bool,
    },
    Comment(String),
    Character(char),
    EOF,
}

impl Attribute {
    /// An attribute with every part empty.
    pub fn new() -> (r: Self)
        ensures
            r.name@.len() == 0,
            r.value@.len() == 0,
            r.prefix@.len() == 0,
            r.namespace@.len() == 0,
    {
        Self {
            name: String::new(),
            value: String::new(),
            prefix: String::new(),
            namespace: String::new(),
        }
    }

    /// An attribute from its name and value, with no prefix or namespace.
    pub fn from_name_value(name: String, value: String) -> (r: Self)
        ensures
            r.name == name,
            r.value == value,
            r.prefix@.len() == 0,
            r.namespace@.len() == 0,
    {
        Self { name, value, prefix: String::new(), namespace: String::new() }
    }
}

impl Token {
    /// A fresh start tag with an empty name and no attributes.
    pub fn new_start_tag() -> (r: Self)
        ensures
            r matches Token::Tag {
                tag_name,
                self_closing,
                attributes,
                is_end_tag,
                self_closing_acknowledged,
            } && tag_name@.len() == 0 && !self_closing && attributes@.len() == 0 && !is_end_tag
                && !self_closing_acknowledged,
    {
        Token::Tag {
            tag_name: String::new(),
            is_end_tag: false,
            self_closing: false,
            attributes: Vec::new(),
            self_closing_acknowledged: false,
        }
    }

    /// A fresh end tag with an empty name and no attributes.
    pub fn new_end_tag() -> (r: Self)
        ensures
            r matches Token::Tag {
                tag_name,
                self_closing,
                attributes,
                is_end_tag,
                self_closing_acknowledged,
            } && tag_name@.len() == 0 && !self_closing && attributes@.len() == 0 && is_end_tag
                && !self_closing_acknowledged,
    {
        Token::Tag {
            tag_name: String::new(),
            is_end_tag: true,
            self_closing: false,
            attributes: Vec::new(),
            self_closing_acknowledged: false,
        }
    }

    /// A fresh start tag with the given name.
    pub fn new_start_tag_with_name(name: &str) -> (r: Self)
        ensures
            r matches Token::Tag {
                tag_name,
                self_closing,
                attributes,
                is_end_tag,
                self_closing_acknowledged,
            } && tag_name@ == name@ && !self_closing && attributes@.len() == 0 && !is_end_tag
                && !self_closing_acknowledged,
    {
        Token::Tag {
            tag_name: name.to_owned(),
            is_end_tag: false,
            self_closing: false,
            attributes: Vec::new(),
            self_closing_acknowledged: false,
        }
    }

    /// A comment token holding the given text.
    pub fn new_comment(data: &str) -> (r: Self)
        ensures
            r matches Token::Comment(text) && text@ == data@,
    {
        Token::Comment(data.to_owned())
    }

    /// A fresh doctype token with nothing set.
    pub fn new_doctype() -> (r: Self)
        ensures
            r matches Token::DOCTYPE {
                name,
                public_identifier,
                system_identifier,
                force_quirks,
            } && name is None && public_identifier is None && system_identifier is None
                && !force_quirks,
    {
        Token::DOCTYPE {
            name: None,
            public_identifier: None,
            system_identifier: None,
            force_quirks: false,
        }
    }

    /// Sets the force-quirks flag of a doctype token; any other token is
    /// left unchanged.
    pub fn set_force_quirks(&mut self, value: bool)
        ensures
            ((*old(self)) matches Token::DOCTYPE {
                name,
                public_identifier,
                system_identifier,
                force_quirks: _,
            } ==> *final(self) == (Token::DOCTYPE {
                name,
                public_identifier,
                system_identifier,
                force_quirks: value,
            })),
            !((*old(self)) is DOCTYPE) ==> *final(self) == *old(self),
    {
        let mut t = Token::EOF;
        std::mem::swap(&mut t, self);
        match t {
            Token::DOCTYPE { name, public_identifier, system_identifier, force_quirks: _ } => {
                *self = Token::DOCTYPE {
                    name,
                    public_identifier,
                    system_identifier,
                    force_quirks: value,
                };
            },
            other => {
                *self = other;
            },
        }
    }

    /// Whether the token is a self-closing tag.
    pub fn is_self_closing(&self) -> (r: bool)
        ensures
            r == (self matches Token::Tag { self_closing: true, .. }),
    {
        if let Token::Tag { self_closing, .. } = self {
            return *self_closing;
        }
        false
    }

    /// Whether the token is a start tag.
    pub fn is_start_tag(&self) -> (r: bool)
        ensures
            r == (self matches Token::Tag { is_end_tag: false, .. }),
    {
        if let Token::Tag { is_end_tag, .. } = self {
            return !*is_end_tag;
        }
        false
    }

    /// Whether the token is an end tag.
    pub fn is_end_tag(&self) -> (r: bool)
        ensures
            r == (self matches Token::Tag { is_end_tag: true, .. }),
    {
        if let Token::Tag { is_end_tag, .. } = self {
            return *is_end_tag;
        }
        false
    }

    /// The tag name of a tag token.
    pub fn tag_name(&self) -> (r: &String)
        requires
            self is Tag,
        ensures
            self matches Token::Tag { tag_name, .. } && r == tag_name,
        decreases 0int,
    {
        match self {
            Token::Tag { tag_name, .. } => tag_name,
            _ => {
                proof {
                    assert(false);
                }
                self.tag_name()
            },
        }
    }

    /// Replaces the tag name of a tag token.
    pub fn set_tag_name(&mut self, new_name: &str)
        requires
            (*old(self)) is Tag,
        ensures
            (*final(self)) matches Token::Tag {
                tag_name,
                self_closing,
                attributes,
                is_end_tag,
                self_closing_acknowledged,
            } && tag_name@ == new_name@ && ((*old(self)) matches Token::Tag {
                tag_name: _,
                self_closing: sc,
                attributes: at,
                is_end_tag: et,
                self_closing_acknowledged: ack,
            } && sc == self_closing && at == attributes && et == is_end_tag && ack
                == self_closing_acknowledged),
    {
        let mut t = Token::EOF;
        std::mem::swap(&mut t, self);
        match t {
            Token::Tag {
                tag_name: _,
                self_closing,
                attributes,
                is_end_tag,
                self_closing_acknowledged,
            } => {
                *self = Token::Tag {
                    tag_name: new_name.to_owned(),
                    self_closing,
                    attributes,
                    is_end_tag,
                    self_closing_acknowledged,
                };
            },
            _ => {
                proof {
                    assert(false);
                }
            },
        }
    }

    /// Whether the token marks the end of the input.
    pub fn is_eof(&self) -> (r: bool)
        ensures
            r == (self is EOF),
    {
        match self {
            Token::EOF => true,
            _ => false,
        }
    }

    /// The attributes of a tag token.
    pub fn attributes(&self) -> (r: &Vec<Attribute>)
        requires
            self is Tag,
        ensures
            self matches Token::Tag { attributes, .. } && r == attributes,
        decreases 0int,
    {
        match self {
            Token::Tag { attributes, .. } => attributes,
            _ => {
                proof {
                    assert(false);
                }
                self.attributes()
            },
        }
    }

    /// A mutable borrow of a tag token's attributes; the rest of the token
    /// is untouched by whatever the caller writes through it.
    pub fn attributes_mut(&mut self) -> (r: &mut Vec<Attribute>)
        requires
            (*old(self)) is Tag,
        ensures
            (*old(self)) matches Token::Tag { attributes, .. } && *r == attributes,
            (*final(self)) matches Token::Tag {
                tag_name,
                self_closing,
                attributes,
                is_end_tag,
                self_closing_acknowledged,
            } && attributes == *final(r) && ((*old(self)) matches Token::Tag {
                tag_name: tn,
                self_closing: sc,
                attributes: _,
                is_end_tag: et,
                self_closing_acknowledged: ack,
            } && tn == tag_name && sc == self_closing && et == is_end_tag && ack
                == self_closing_acknowledged),
        decreases 0int,
    {
        match self {
            Token::Tag { attributes, .. } => attributes,
            _ => {
                proof {
                    assert(false);
                }
                self.attributes_mut()
            },
        }
    }

    /// Looks an attribute up by name on a tag token: the value of the first
    /// attribute with that name, or nothing when no attribute has it.
    pub fn attribute(&self, name: &str) -> (r: Option<&String>)
        requires
            self is Tag,
        ensures
            (self matches Token::Tag { attributes, .. } ==> (match r {
                Some(v) => exists|i: int|
                    {
                        &&& 0 <= i < attributes@.len()
                        &&& (#[trigger] attributes@[i]).name@ == name@
                        &&& v@ == attributes@[i].value@
                        &&& forall|j: int| 0 <= j < i ==> attributes@[j].name@ != name@
                    },
                None => forall|i: int|
                    0 <= i < attributes@.len() ==> (#[trigger] attributes@[i]).name@ != name@,
            })),
    {
        let name_owned = name.to_owned();
        match self {
            Token::Tag { attributes, .. } => {
                let n = attributes.len();
                let mut i: usize = 0;
                loop
                    invariant_except_break
                        0 <= i <= n,
                        n == attributes@.len(),
                        name_owned@ == name@,
                        forall|j: int|
                            0 <= j < i ==> (#[trigger] attributes@[j]).name@ != name@,
                    ensures
                        (i < n && attributes@[i as int].name@ == name@ && forall|j: int|
                            0 <= j < i ==> (#[trigger] attributes@[j]).name@ != name@) || (i == n
                            && forall|j: int|
                            0 <= j < n ==> (#[trigger] attributes@[j]).name@ != name@),
                    decreases n - i,
                {
                    if i >= n {
                        break ;
                    }
                    if attributes[i].name == name_owned {
                        break ;
                    }
                    i = i + 1;
                }
                if i < attributes.len() {
                    Some(&attributes[i].value)
                } else {
                    None
                }
            },
            _ => {
                proof {
                    assert(false);
                }
                None
            },
        }
    }

    /// Removes every attribute of a tag token.
    pub fn drop_attributes(&mut self)
        requires
            (*old(self)) is Tag,
        ensures
            (*final(self)) matches Token::Tag {
                tag_name,
                self_closing,
                attributes,
                is_end_tag,
                self_closing_acknowledged,
            } && ((*old(self)) matches Token::Tag {
                tag_name: tn,
                self_closing: sc,
                attributes: _,
                is_end_tag: et,
                self_closing_acknowledged: ack,
            } && tn == tag_name && sc == self_closing && attributes@.len() == 0 && et == is_end_tag
                && ack == self_closing_acknowledged),
    {
        let mut t = Token::EOF;
        std::mem::swap(&mut t, self);
        match t {
            Token::Tag {
                tag_name,
                self_closing,
                attributes: _,
                is_end_tag,
                self_closing_acknowledged,
            } => {
                *self = Token::Tag {
                    tag_name,
                    self_closing,
                    attributes: Vec::new(),
                    is_end_tag,
                    self_closing_acknowledged,
                };
            },
            _ => {
                proof {
                    assert(false);
                }
            },
        }
    }

    /// Acknowledges the self-closing flag of a tag token that has it set;
    /// any other token is left unchanged.
    pub fn acknowledge_self_closing_if_set(&mut self)
        ensures
            ((*old(self)) matches Token::Tag {
                tag_name,
                self_closing: true,
                attributes,
                is_end_tag,
                self_closing_acknowledged: _,
            } ==> *final(self) == (Token::Tag {
                tag_name,
                self_closing: true,
                attributes,
                is_end_tag,
                self_closing_acknowledged: true,
            })),
            !((*old(self)) matches Token::Tag { self_closing: true, .. }) ==> *final(self) == *old(
                self,
            ),
    {
        let mut t = Token::EOF;
        std::mem::swap(&mut t, self);
        match t {
            Token::Tag {
                tag_name,
                self_closing,
                attributes,
                is_end_tag,
                self_closing_acknowledged,
            } => {
                let ack = if self_closing {
                    true
                } else {
                    self_closing_acknowledged
                };
                *self = Token::Tag {
                    tag_name,
                    self_closing,
                    attributes,
                    is_end_tag,
                    self_closing_acknowledged: ack,
                };
            },
            other => {
                *self = other;
            },
        }
    }
}

} // verus!

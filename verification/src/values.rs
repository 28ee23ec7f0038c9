//! CSS properties and the value domains they accept. The property set is a
//! closed enumeration; each property has exactly one value domain and one
//! initial value, and membership in the inheritable set is fixed here.

use vstd::prelude::*;

use crate::token::{Token, TokenView};
use crate::cssom::{cv_vec_view, ComponentValue, ComponentValueView};

verus! {

/// A color value as red, green, blue and alpha channels.
#[derive(Clone, Copy, Debug, PartialEq, Eq, Structural)]
pub enum Color {
    RGBA(u8, u8, u8, u8),
}

/// A display keyword value.
#[derive(Clone, Copy, Debug, PartialEq, Eq, Structural)]
pub enum Display {
    NoneKeyword,
    Block,
    Inline,
}

/// A recognized CSS property identifier.
#[derive(Clone, Copy, Debug, Hash, PartialEq, Eq, Structural)]
pub enum Property {
    BackgroundColor,
    Color,
    Display,
}

/// A property value: the tagged union over the domains the properties accept.
#[derive(Clone, Copy, Debug, PartialEq, Eq, Structural)]
pub enum Value {
    Color(Color),
    Display(Display),
}

/// The color a named color keyword stands for, if recognized.
pub open spec fn color_from_name(name: Seq<char>) -> Option<Color> {
    if name == "black"@ {
        Some(Color::RGBA(0, 0, 0, 255))
    } else if name == "white"@ {
        Some(Color::RGBA(255, 255, 255, 255))
    } else if name == "red"@ {
        Some(Color::RGBA(255, 0, 0, 255))
    } else if name == "green"@ {
        Some(Color::RGBA(0, 128, 0, 255))
    } else if name == "blue"@ {
        Some(Color::RGBA(0, 0, 255, 255))
    } else {
        None
    }
}

/// The display mode a display keyword stands for, if recognized.
pub open spec fn display_from_name(name: Seq<char>) -> Option<Display> {
    if name == "none"@ {
        Some(Display::NoneKeyword)
    } else if name == "block"@ {
        Some(Display::Block)
    } else if name == "inline"@ {
        Some(Display::Inline)
    } else {
        None
    }
}

/// The property a declaration name stands for, if recognized.
pub open spec fn property_from_name(name: Seq<char>) -> Option<Property> {
    if name == "background-color"@ {
        Some(Property::BackgroundColor)
    } else if name == "color"@ {
        Some(Property::Color)
    } else if name == "display"@ {
        Some(Property::Display)
    } else {
        None
    }
}

/// Whether a property is in the fixed inheritable set.
pub open spec fn is_inheritable(property: Property) -> bool {
    property is Color
}

/// The initial value of a property, used where neither a declared nor an
/// inherited value applies.
pub open spec fn initial_value(property: Property) -> Value {
    match property {
        Property::BackgroundColor => Value::Color(Color::RGBA(0, 0, 0, 255)),
        Property::Color => Value::Color(Color::RGBA(0, 0, 0, 255)),
        Property::Display => Value::Display(Display::Inline),
    }
}

/// Index of the first non-whitespace token at or after `i`.
pub open spec fn skip_ws_toks(toks: Seq<TokenView>, i: int) -> int
    decreases toks.len() - i,
{
    if 0 <= i < toks.len() && toks[i] is Whitespace {
        skip_ws_toks(toks, i + 1)
    } else {
        i
    }
}

/// The single meaningful token of a value run: exactly one non-whitespace
/// token, which must be an ident; anything else parses to nothing.
pub open spec fn single_ident_of(toks: Seq<TokenView>) -> Option<Seq<char>> {
    let i = skip_ws_toks(toks, 0);
    if 0 <= i < toks.len() && toks[i] is Ident {
        let j = skip_ws_toks(toks, i + 1);
        if j == toks.len() {
            Some(toks[i]->Ident_0)
        } else {
            None
        }
    } else {
        None
    }
}

/// What a token run parses to for a given property: a single recognized
/// keyword, in the property's own domain; unrecognized names and any other
/// shape parse to nothing.
pub open spec fn parse_value_tokens_spec(property: Property, toks: Seq<TokenView>) -> Option<
    Value,
> {
    match single_ident_of(toks) {
        Some(name) => match property {
            Property::BackgroundColor | Property::Color => match color_from_name(name) {
                Some(c) => Some(Value::Color(c)),
                None => None,
            },
            Property::Display => match display_from_name(name) {
                Some(d) => Some(Value::Display(d)),
                None => None,
            },
        },
        None => None,
    }
}

impl Property {
    /// The property a declaration name stands for, if recognized.
    pub fn parse(property: &str) -> (r: Option<Property>)
        ensures
            r == property_from_name(property@),
    {
        let name = property.to_owned();
        if name == String::from_str("background-color") {
            Some(Property::BackgroundColor)
        } else if name == String::from_str("color") {
            Some(Property::Color)
        } else if name == String::from_str("display") {
            Some(Property::Display)
        } else {
            None
        }
    }

    /// Whether the property is in the fixed inheritable set.
    pub fn inheritable(&self) -> (r: bool)
        ensures
            r == is_inheritable(*self),
    {
        match self {
            Property::Color => true,
            _ => false,
        }
    }
}

/// First non-whitespace token index at or after `i`, executable form.
fn skip_ws_index(tokens: &Vec<Token>, start: usize) -> (r: usize)
    requires
        start <= tokens@.len(),
    ensures
        r == skip_ws_toks(tokens.deep_view(), start as int),
        start <= r <= tokens@.len(),
{
    let n = tokens.len();
    let mut i = start;
    loop
        invariant_except_break
            start <= i <= n,
            n == tokens@.len(),
            skip_ws_toks(tokens.deep_view(), start as int) == skip_ws_toks(
                tokens.deep_view(),
                i as int,
            ),
        ensures
            start <= i <= n,
            i as int == skip_ws_toks(tokens.deep_view(), start as int),
        decreases n - i,
    {
        if i >= n {
            break ;
        }
        let ws = match &tokens[i] {
            Token::Whitespace => true,
            _ => false,
        };
        if !ws {
            break ;
        }
        i = i + 1;
    }
    i
}

impl Color {
    /// The color the token run names, boxed as a value; recognized named
    /// colors only.
    pub fn parse(tokens: &Vec<Token>) -> (r: Option<Value>)
        ensures
            r == parse_value_tokens_spec(Property::Color, tokens.deep_view()),
    {
        let i = skip_ws_index(tokens, 0);
        if i >= tokens.len() {
            return None;
        }
        let name = match &tokens[i] {
            Token::Ident(s) => s.clone(),
            _ => {
                return None;
            },
        };
        let j = skip_ws_index(tokens, i + 1);
        if j != tokens.len() {
            return None;
        }
        match Self::from_name(&name) {
            Some(c) => Some(Value::Color(c)),
            None => None,
        }
    }

    /// The color a name stands for, if recognized.
    pub fn from_name(name: &String) -> (r: Option<Color>)
        ensures
            r == color_from_name(name@),
    {
        if *name == String::from_str("black") {
            Some(Color::RGBA(0, 0, 0, 255))
        } else if *name == String::from_str("white") {
            Some(Color::RGBA(255, 255, 255, 255))
        } else if *name == String::from_str("red") {
            Some(Color::RGBA(255, 0, 0, 255))
        } else if *name == String::from_str("green") {
            Some(Color::RGBA(0, 128, 0, 255))
        } else if *name == String::from_str("blue") {
            Some(Color::RGBA(0, 0, 255, 255))
        } else {
            None
        }
    }

    /// The initial color: opaque black.
    pub fn default() -> (r: Value)
        ensures
            r == initial_value(Property::Color),
    {
        Value::Color(Color::RGBA(0, 0, 0, 255))
    }
}

impl Display {
    /// The display mode the token run names, boxed as a value.
    pub fn parse(tokens: &Vec<Token>) -> (r: Option<Value>)
        ensures
            r == parse_value_tokens_spec(Property::Display, tokens.deep_view()),
    {
        let i = skip_ws_index(tokens, 0);
        if i >= tokens.len() {
            return None;
        }
        let name = match &tokens[i] {
            Token::Ident(s) => s.clone(),
            _ => {
                return None;
            },
        };
        let j = skip_ws_index(tokens, i + 1);
        if j != tokens.len() {
            return None;
        }
        match Self::from_name(&name) {
            Some(d) => Some(Value::Display(d)),
            None => None,
        }
    }

    /// The display mode a name stands for, if recognized.
    pub fn from_name(name: &String) -> (r: Option<Display>)
        ensures
            r == display_from_name(name@),
    {
        if *name == String::from_str("none") {
            Some(Display::NoneKeyword)
        } else if *name == String::from_str("block") {
            Some(Display::Block)
        } else if *name == String::from_str("inline") {
            Some(Display::Inline)
        } else {
            None
        }
    }

    /// The initial display mode: inline.
    pub fn default() -> (r: Value)
        ensures
            r == initial_value(Property::Display),
    {
        Value::Display(Display::Inline)
    }
}

impl Value {
    /// What a token run parses to for a given property.
    pub fn parse(property: &Property, tokens: &Vec<Token>) -> (r: Option<Value>)
        ensures
            r == parse_value_tokens_spec(*property, tokens.deep_view()),
    {
        match property {
            Property::BackgroundColor => {
                let r = Color::parse(tokens);
                proof {
                    assert(parse_value_tokens_spec(Property::BackgroundColor, tokens.deep_view())
                        == parse_value_tokens_spec(Property::Color, tokens.deep_view()));
                }
                r
            },
            Property::Color => Color::parse(tokens),
            Property::Display => Display::parse(tokens),
        }
    }

    /// The initial value of a property, also used as its fallback default.
    pub fn default(property: &Property) -> (r: Value)
        ensures
            r == initial_value(*property),
    {
        match property {
            Property::BackgroundColor => Color::default(),
            Property::Color => Color::default(),
            Property::Display => Display::default(),
        }
    }

    /// The initial value of a property.
    pub fn initial(property: &Property) -> (r: Value)
        ensures
            r == initial_value(*property),
    {
        Value::default(property)
    }
}

/// The declared values a node's matching rules supplied: per property, the
/// parsed value if one was declared.
#[derive(Clone, Copy, Debug, PartialEq, Eq, Structural)]
pub struct Properties {
    pub background_color: Option<Value>,
    pub color: Option<Value>,
    pub display: Option<Value>,
}

impl Properties {
    /// The declared value for a property, if any.
    pub open spec fn get_spec(&self, property: Property) -> Option<Value> {
        match property {
            Property::BackgroundColor => self.background_color,
            Property::Color => self.color,
            Property::Display => self.display,
        }
    }

    /// The map with one property's value replaced.
    pub open spec fn insert_spec(&self, property: Property, value: Value) -> Properties {
        match property {
            Property::BackgroundColor => Properties { background_color: Some(value), ..*self },
            Property::Color => Properties { color: Some(value), ..*self },
            Property::Display => Properties { display: Some(value), ..*self },
        }
    }

    /// An empty map: nothing declared.
    pub fn new() -> (r: Self)
        ensures
            r == (Properties {
                background_color: None::<Value>,
                color: None::<Value>,
                display: None::<Value>,
            }),
    {
        Self { background_color: None, color: None, display: None }
    }

    /// The declared value for a property, if any.
    pub fn get(&self, property: &Property) -> (r: Option<Value>)
        ensures
            r == self.get_spec(*property),
    {
        match property {
            Property::BackgroundColor => self.background_color,
            Property::Color => self.color,
            Property::Display => self.display,
        }
    }

    /// Overwrites one property's declared value.
    pub fn insert(&mut self, property: Property, value: Value)
        ensures
            *final(self) == old(self).insert_spec(property, value),
    {
        match property {
            Property::BackgroundColor => {
                self.background_color = Some(value);
            },
            Property::Color => {
                self.color = Some(value);
            },
            Property::Display => {
                self.display = Some(value);
            },
        }
    }
}

/// A node's computed style: fully resolved, every property has a value.
#[derive(Clone, Copy, Debug, PartialEq, Eq, Structural)]
pub struct ComputedValues {
    pub background_color: Value,
    pub color: Value,
    pub display: Value,
}

impl ComputedValues {
    /// The computed value of a property.
    pub open spec fn get_spec(&self, property: Property) -> Value {
        match property {
            Property::BackgroundColor => self.background_color,
            Property::Color => self.color,
            Property::Display => self.display,
        }
    }

    /// The computed value of a property.
    pub fn get(&self, property: &Property) -> (r: Value)
        ensures
            r == self.get_spec(*property),
    {
        match property {
            Property::BackgroundColor => self.background_color,
            Property::Color => self.color,
            Property::Display => self.display,
        }
    }
}


/// The numeric arguments of a color function: whitespace and commas are
/// skipped, numbers collected in order; any other argument spoils the run.
pub open spec fn rgba_args_numbers(args: Seq<ComponentValueView>) -> Option<Seq<int>>
    decreases args.len(),
{
    if args.len() == 0 {
        Some(Seq::empty())
    } else {
        match args[0] {
            ComponentValueView::PerservedToken(TokenView::Whitespace) => rgba_args_numbers(
                args.skip(1),
            ),
            ComponentValueView::PerservedToken(TokenView::Comma) => rgba_args_numbers(
                args.skip(1),
            ),
            ComponentValueView::PerservedToken(TokenView::Number(n)) => match rgba_args_numbers(
                args.skip(1),
            ) {
                Some(rest) => Some(seq![n] + rest),
                None => None,
            },
            _ => None,
        }
    }
}

/// The color an `rgba` argument run stands for: exactly four numbers, each
/// in the channel range.
pub open spec fn rgba_value_of(args: Seq<ComponentValueView>) -> Option<Value> {
    match rgba_args_numbers(args) {
        Some(ns) => if ns.len() == 4 && (forall|i: int| 0 <= i < 4 ==> 0 <= #[trigger] ns[i]
            <= 255) {
            Some(
                Value::Color(
                    Color::RGBA(ns[0] as u8, ns[1] as u8, ns[2] as u8, ns[3] as u8),
                ),
            )
        } else {
            None
        },
        None => None,
    }
}

/// The keyword value a name stands for in a property's domain.
pub open spec fn keyword_value(property: Property, name: Seq<char>) -> Option<Value> {
    match property {
        Property::BackgroundColor | Property::Color => match color_from_name(name) {
            Some(c) => Some(Value::Color(c)),
            None => None,
        },
        Property::Display => match display_from_name(name) {
            Some(d) => Some(Value::Display(d)),
            None => None,
        },
    }
}

/// What a component-value run parses to for a given property: exactly one
/// meaningful value between optional whitespace, either a recognized keyword
/// ident or, for color-valued properties, an `rgba` function.
pub open spec fn parse_value_cvs_spec(property: Property, cvs: Seq<ComponentValueView>) -> Option<
    Value,
> {
    let i = crate::parse_spec::skip_ws_cvs(cvs, 0);
    if 0 <= i < cvs.len() {
        let j = crate::parse_spec::skip_ws_cvs(cvs, i + 1);
        if j != cvs.len() {
            None
        } else {
            match cvs[i] {
                ComponentValueView::PerservedToken(TokenView::Ident(name)) => keyword_value(
                    property,
                    name,
                ),
                ComponentValueView::Function(f) => if (property is BackgroundColor || property
                    is Color) && f.name == "rgba"@ {
                    rgba_value_of(f.value)
                } else {
                    None
                },
                _ => None,
            }
        }
    } else {
        None
    }
}

/// A vector of numeric channel values as a sequence of integers.
pub open spec fn nums_view(v: Vec<i64>) -> Seq<int> {
    Seq::new(v@.len(), |i: int| v@[i] as int)
}

/// First non-whitespace component value at or after `start`.
fn skip_ws_cv_index(cvs: &Vec<ComponentValue>, start: usize) -> (r: usize)
    requires
        start <= cvs@.len(),
    ensures
        r == crate::parse_spec::skip_ws_cvs(cv_vec_view(*cvs), start as int),
        start <= r <= cvs@.len(),
{
    let n = cvs.len();
    let mut i = start;
    loop
        invariant_except_break
            start <= i <= n,
            n == cvs@.len(),
            crate::parse_spec::skip_ws_cvs(cv_vec_view(*cvs), start as int)
                == crate::parse_spec::skip_ws_cvs(cv_vec_view(*cvs), i as int),
        ensures
            start <= i <= n,
            i as int == crate::parse_spec::skip_ws_cvs(cv_vec_view(*cvs), start as int),
        decreases n - i,
    {
        if i >= n {
            break ;
        }
        let ws = match &cvs[i] {
            ComponentValue::PerservedToken(Token::Whitespace) => true,
            _ => false,
        };
        if !ws {
            break ;
        }
        i = i + 1;
    }
    i
}

/// The color an `rgba` argument run stands for, if well-formed.
fn parse_rgba_args(args: &Vec<ComponentValue>) -> (r: Option<Value>)
    ensures
        r == rgba_value_of(cv_vec_view(*args)),
{
    let n = args.len();
    let mut nums: Vec<i64> = Vec::new();
    let mut i: usize = 0;
    let mut failed = false;
    let ghost full = cv_vec_view(*args);
    proof {
        assert(full.skip(0) =~= full);
    }
    loop
        invariant_except_break
            0 <= i <= n,
            n == args@.len(),
            full == cv_vec_view(*args),
            ({
                let rem = rgba_args_numbers(full.skip(i as int));
                rgba_args_numbers(full) == (match rem {
                    Some(rest) => Some(nums_view(nums) + rest),
                    None => None::<Seq<int>>,
                })
            }),
        ensures
            full == cv_vec_view(*args),
            (failed && rgba_args_numbers(full) is None) || (!failed && rgba_args_numbers(full)
                == Some(nums_view(nums))),
        decreases n - i,
    {
        if i >= n {
            proof {
                assert(full.skip(i as int).len() == 0);
                assert(nums_view(nums) + Seq::<int>::empty() =~= nums_view(nums));
            }
            failed = false;
            break ;
        }
        let ghost nums_pre = nums;
        proof {
            assert(full.skip(i as int)[0] == full[i as int]);
            assert(full.skip(i as int).skip(1) =~= full.skip(i as int + 1));
        }
        match &args[i] {
            ComponentValue::PerservedToken(Token::Whitespace) => {},
            ComponentValue::PerservedToken(Token::Comma) => {},
            ComponentValue::PerservedToken(Token::Number(value)) => {
                nums.push(*value);
                proof {
                    assert(nums_view(nums) =~= nums_view(nums_pre).push(*value as int));
                    if rgba_args_numbers(full.skip(i as int + 1)) is Some {
                        assert(nums_view(nums_pre) + (seq![*value as int]
                            + rgba_args_numbers(full.skip(i as int + 1))->Some_0)
                            =~= nums_view(nums) + rgba_args_numbers(
                            full.skip(i as int + 1),
                        )->Some_0);
                    }
                }
            },
            _ => {
                failed = true;
                break ;
            },
        }
        i = i + 1;
    }
    if failed {
        return None;
    }
    if nums.len() != 4 {
        return None;
    }
    let a = nums[0];
    let b = nums[1];
    let c = nums[2];
    let d = nums[3];
    if a < 0 || a > 255 || b < 0 || b > 255 || c < 0 || c > 255 || d < 0 || d > 255 {
        proof {
            let ns = rgba_args_numbers(cv_vec_view(*args))->Some_0;
            assert(ns[0] == a as int && ns[1] == b as int && ns[2] == c as int && ns[3]
                == d as int);
        }
        return None;
    }
    proof {
        let ns = rgba_args_numbers(cv_vec_view(*args))->Some_0;
        assert(ns[0] == a as int && ns[1] == b as int && ns[2] == c as int && ns[3] == d as int);
        assert(forall|k: int| 0 <= k < 4 ==> 0 <= #[trigger] ns[k] <= 255);
    }
    Some(Value::Color(Color::RGBA(a as u8, b as u8, c as u8, d as u8)))
}

/// What a component-value run parses to for a given property: a recognized
/// keyword ident or, for color-valued properties, an `rgba` function.
pub fn parse_value_cvs(property: &Property, cvs: &Vec<ComponentValue>) -> (r: Option<Value>)
    ensures
        r == parse_value_cvs_spec(*property, cv_vec_view(*cvs)),
{
    let i = skip_ws_cv_index(cvs, 0);
    if i >= cvs.len() {
        return None;
    }
    let j = skip_ws_cv_index(cvs, i + 1);
    if j != cvs.len() {
        return None;
    }
    match &cvs[i] {
        ComponentValue::PerservedToken(Token::Ident(name)) => {
            match property {
                Property::BackgroundColor | Property::Color => match Color::from_name(name) {
                    Some(c) => Some(Value::Color(c)),
                    None => None,
                },
                Property::Display => match Display::from_name(name) {
                    Some(d) => Some(Value::Display(d)),
                    None => None,
                },
            }
        },
        ComponentValue::Function(f) => {
            let is_color_property = match property {
                Property::BackgroundColor | Property::Color => true,
                Property::Display => false,
            };
            if is_color_property && f.name == String::from_str("rgba") {
                parse_rgba_args(&f.value)
            } else {
                None
            }
        },
        _ => None,
    }
}

} // verus!

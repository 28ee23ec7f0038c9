use moon_style::cssom::{ComponentValue, Declaration};
use moon_style::token::Token;
use moon_style::values::{parse_value_cvs, Color, Display, Properties, Property, Value};

fn ident(s: &str) -> Token {
    Token::Ident(s.to_string())
}

fn pt(t: Token) -> ComponentValue {
    ComponentValue::PerservedToken(t)
}

#[test]
fn property_names_parse_to_the_closed_set() {
    assert_eq!(Property::parse("background-color"), Some(Property::BackgroundColor));
    assert_eq!(Property::parse("color"), Some(Property::Color));
    assert_eq!(Property::parse("display"), Some(Property::Display));
    assert_eq!(Property::parse("margin"), None);
}

#[test]
fn color_keywords_parse_to_channels() {
    let tokens = vec![Token::Whitespace, ident("white"), Token::Whitespace];
    assert_eq!(
        Color::parse(&tokens),
        Some(Value::Color(Color::RGBA(255, 255, 255, 255)))
    );
    let tokens = vec![ident("black")];
    assert_eq!(Color::parse(&tokens), Some(Value::Color(Color::RGBA(0, 0, 0, 255))));
    let tokens = vec![ident("blurple")];
    assert_eq!(Color::parse(&tokens), None);
    // Two meaningful tokens are not a single value.
    let tokens = vec![ident("red"), Token::Whitespace, ident("blue")];
    assert_eq!(Color::parse(&tokens), None);
}

#[test]
fn display_keywords_parse_to_modes() {
    let tokens = vec![ident("none")];
    assert_eq!(
        Display::parse(&tokens),
        Some(Value::Display(Display::NoneKeyword))
    );
    let tokens = vec![ident("block")];
    assert_eq!(Display::parse(&tokens), Some(Value::Display(Display::Block)));
    let tokens = vec![ident("grid")];
    assert_eq!(Display::parse(&tokens), None);
}

#[test]
fn value_parse_dispatches_on_the_property_domain() {
    let tokens = vec![ident("block")];
    assert_eq!(Value::parse(&Property::Color, &tokens), None);
    assert_eq!(
        Value::parse(&Property::Display, &tokens),
        Some(Value::Display(Display::Block))
    );
    assert_eq!(
        Value::default(&Property::Display),
        Value::Display(Display::Inline)
    );
    assert_eq!(
        Value::initial(&Property::Color),
        Value::Color(Color::RGBA(0, 0, 0, 255))
    );
}

#[test]
fn rgba_function_values_parse_exactly() {
    let rgba = |args: Vec<ComponentValue>| {
        ComponentValue::Function(moon_style::cssom::Function {
            name: "rgba".to_string(),
            value: args,
        })
    };
    let good = vec![rgba(vec![
        pt(Token::Number(1)),
        pt(Token::Comma),
        pt(Token::Number(2)),
        pt(Token::Comma),
        pt(Token::Number(3)),
        pt(Token::Comma),
        pt(Token::Whitespace),
        pt(Token::Number(4)),
    ])];
    assert_eq!(
        parse_value_cvs(&Property::Color, &good),
        Some(Value::Color(Color::RGBA(1, 2, 3, 4)))
    );

    // Out-of-range channels, wrong arity, and non-color properties fail.
    let out_of_range = vec![rgba(vec![
        pt(Token::Number(256)),
        pt(Token::Number(0)),
        pt(Token::Number(0)),
        pt(Token::Number(0)),
    ])];
    assert_eq!(parse_value_cvs(&Property::Color, &out_of_range), None);

    let three = vec![rgba(vec![
        pt(Token::Number(1)),
        pt(Token::Number(2)),
        pt(Token::Number(3)),
    ])];
    assert_eq!(parse_value_cvs(&Property::Color, &three), None);
    assert_eq!(parse_value_cvs(&Property::Display, &good), None);
}

#[test]
fn properties_map_inserts_and_reads_back() {
    let mut props = Properties::new();
    assert_eq!(props.get(&Property::Color), None);
    props.insert(Property::Color, Value::Color(Color::RGBA(1, 1, 1, 1)));
    props.insert(Property::Color, Value::Color(Color::RGBA(2, 2, 2, 2)));
    assert_eq!(
        props.get(&Property::Color),
        Some(Value::Color(Color::RGBA(2, 2, 2, 2)))
    );
    assert_eq!(props.get(&Property::Display), None);
    assert!(Property::Color.inheritable());
    assert!(!Property::Display.inheritable());
    assert!(!Property::BackgroundColor.inheritable());
}

#[test]
fn declaration_utilities() {
    let mut declaration = Declaration::new("color".to_string());
    assert!(!declaration.important);
    declaration.append_value(pt(ident("red")));
    declaration.append_value(pt(Token::Whitespace));
    declaration.append_value(pt(Token::Delim('!')));

    // The last two values, reversed.
    let last_two = declaration.last_values(2);
    assert_eq!(last_two.len(), 2);
    assert_eq!(*last_two[0], pt(Token::Delim('!')));
    assert_eq!(*last_two[1], pt(Token::Whitespace));
    // Asking for more than exists gives everything.
    assert_eq!(declaration.last_values(9).len(), 3);

    // The last preserved token, with its distance from the end.
    match declaration.last_token() {
        Some((index, token)) => {
            assert_eq!(index, 0);
            assert_eq!(*token, Token::Delim('!'));
        }
        None => panic!("expected a last token"),
    }

    declaration.pop_last(2);
    assert_eq!(declaration.value, vec![pt(ident("red"))]);
    declaration.pop_last(5);
    assert!(declaration.value.is_empty());
    assert!(declaration.last_token().is_none());

    declaration.append_value(pt(ident("a")));
    declaration.append_value(pt(ident("b")));
    declaration.remove(0);
    assert_eq!(declaration.value, vec![pt(ident("b"))]);

    declaration.important();
    assert!(declaration.important);
}

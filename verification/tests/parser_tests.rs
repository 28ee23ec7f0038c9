use moon_style::cssom::{
    ComponentValue, Declaration, DeclarationOrAtRule, Function, ParseDiagnostic, QualifiedRule,
    Rule, SimpleBlock,
};
use moon_style::parser::Parser;
use moon_style::token::{HashType, Token};

fn ident(s: &str) -> Token {
    Token::Ident(s.to_string())
}

fn pt(t: Token) -> ComponentValue {
    ComponentValue::PerservedToken(t)
}

#[test]
fn parse_a_stylesheet() {
    // div { color: black; }
    let tokens = vec![
        ident("div"),
        Token::Whitespace,
        Token::BraceOpen,
        Token::Whitespace,
        ident("color"),
        Token::Colon,
        Token::Whitespace,
        ident("black"),
        Token::Semicolon,
        Token::Whitespace,
        Token::BraceClose,
        Token::EOF,
    ];
    let mut parser = Parser::new(tokens);
    let stylesheet = parser.parse_a_stylesheet();
    let rules = stylesheet.rules;

    assert_eq!(rules.len(), 1);
    assert_eq!(
        rules[0],
        Rule::QualifiedRule(QualifiedRule {
            prelude: vec![pt(ident("div")), pt(Token::Whitespace)],
            block: Some(SimpleBlock {
                token: Token::BraceOpen,
                value: vec![
                    pt(Token::Whitespace),
                    pt(ident("color")),
                    pt(Token::Colon),
                    pt(Token::Whitespace),
                    pt(ident("black")),
                    pt(Token::Semicolon),
                    pt(Token::Whitespace),
                ],
            }),
        })
    );
}

#[test]
fn parse_a_class() {
    // .className { color: black; }
    let tokens = vec![
        Token::Delim('.'),
        ident("className"),
        Token::Whitespace,
        Token::BraceOpen,
        Token::Whitespace,
        ident("color"),
        Token::Colon,
        Token::Whitespace,
        ident("black"),
        Token::Semicolon,
        Token::Whitespace,
        Token::BraceClose,
        Token::EOF,
    ];
    let mut parser = Parser::new(tokens);
    let stylesheet = parser.parse_a_stylesheet();
    let rules = stylesheet.rules;

    assert_eq!(rules.len(), 1);
    assert_eq!(
        rules[0],
        Rule::QualifiedRule(QualifiedRule {
            prelude: vec![
                pt(Token::Delim('.')),
                pt(ident("className")),
                pt(Token::Whitespace),
            ],
            block: Some(SimpleBlock {
                token: Token::BraceOpen,
                value: vec![
                    pt(Token::Whitespace),
                    pt(ident("color")),
                    pt(Token::Colon),
                    pt(Token::Whitespace),
                    pt(ident("black")),
                    pt(Token::Semicolon),
                    pt(Token::Whitespace),
                ],
            }),
        })
    );
}

#[test]
fn parse_an_id() {
    // #elementId { color: black; }
    let tokens = vec![
        Token::Hash("elementId".to_string(), HashType::Id),
        Token::Whitespace,
        Token::BraceOpen,
        Token::Whitespace,
        ident("color"),
        Token::Colon,
        Token::Whitespace,
        ident("black"),
        Token::Semicolon,
        Token::Whitespace,
        Token::BraceClose,
        Token::EOF,
    ];
    let mut parser = Parser::new(tokens);
    let stylesheet = parser.parse_a_stylesheet();
    let rules = stylesheet.rules;

    assert_eq!(rules.len(), 1);
    assert_eq!(
        rules[0],
        Rule::QualifiedRule(QualifiedRule {
            prelude: vec![
                pt(Token::Hash("elementId".to_string(), HashType::Id)),
                pt(Token::Whitespace),
            ],
            block: Some(SimpleBlock {
                token: Token::BraceOpen,
                value: vec![
                    pt(Token::Whitespace),
                    pt(ident("color")),
                    pt(Token::Colon),
                    pt(Token::Whitespace),
                    pt(ident("black")),
                    pt(Token::Semicolon),
                    pt(Token::Whitespace),
                ],
            }),
        })
    );
}

#[test]
fn important_declaration_detected_and_removed() {
    // color: red !important
    let tokens = vec![
        ident("color"),
        Token::Colon,
        Token::Whitespace,
        ident("red"),
        Token::Whitespace,
        Token::Delim('!'),
        ident("important"),
    ];
    let mut parser = Parser::new(tokens);
    let declaration = parser.parse_a_declaration().unwrap();
    assert_eq!(
        declaration,
        Declaration {
            name: "color".to_string(),
            value: vec![pt(ident("red"))],
            important: true,
        }
    );
}

#[test]
fn important_declaration_whitespace_variant() {
    // color:red! important
    let tokens = vec![
        ident("color"),
        Token::Colon,
        ident("red"),
        Token::Delim('!'),
        Token::Whitespace,
        ident("IMPORTANT"),
    ];
    let mut parser = Parser::new(tokens);
    let declaration = parser.parse_a_declaration().unwrap();
    assert_eq!(
        declaration,
        Declaration {
            name: "color".to_string(),
            value: vec![pt(ident("red"))],
            important: true,
        }
    );
}

#[test]
fn important_lookalike_left_alone() {
    // color: red !importantx
    let tokens = vec![
        ident("color"),
        Token::Colon,
        Token::Whitespace,
        ident("red"),
        Token::Whitespace,
        Token::Delim('!'),
        ident("importantx"),
    ];
    let mut parser = Parser::new(tokens);
    let declaration = parser.parse_a_declaration().unwrap();
    assert_eq!(
        declaration,
        Declaration {
            name: "color".to_string(),
            value: vec![
                pt(ident("red")),
                pt(Token::Whitespace),
                pt(Token::Delim('!')),
                pt(ident("importantx")),
            ],
            important: false,
        }
    );
}

#[test]
fn declaration_list_skips_malformed_segment() {
    // color: red; 123invalid; display: block;
    let tokens = vec![
        ident("color"),
        Token::Colon,
        Token::Whitespace,
        ident("red"),
        Token::Semicolon,
        Token::Whitespace,
        Token::Number(123),
        ident("invalid"),
        Token::Semicolon,
        Token::Whitespace,
        ident("display"),
        Token::Colon,
        Token::Whitespace,
        ident("block"),
        Token::Semicolon,
    ];
    let mut parser = Parser::new(tokens);
    let entries = parser.parse_a_list_of_declarations();
    assert_eq!(entries.len(), 2);
    assert_eq!(
        entries[0],
        DeclarationOrAtRule::Declaration(Declaration {
            name: "color".to_string(),
            value: vec![pt(ident("red"))],
            important: false,
        })
    );
    assert_eq!(
        entries[1],
        DeclarationOrAtRule::Declaration(Declaration {
            name: "display".to_string(),
            value: vec![pt(ident("block"))],
            important: false,
        })
    );
}

#[test]
fn declaration_without_colon_yields_nothing() {
    let tokens = vec![ident("color"), Token::Whitespace, ident("red")];
    let mut parser = Parser::new(tokens);
    assert!(parser.parse_a_declaration().is_err());
}

#[test]
fn function_value_parses_as_function() {
    // width: calc(1)
    let tokens = vec![
        ident("width"),
        Token::Colon,
        Token::Whitespace,
        Token::Function("calc".to_string()),
        Token::Number(1),
        Token::ParentheseClose,
    ];
    let mut parser = Parser::new(tokens);
    let declaration = parser.parse_a_declaration().unwrap();
    assert_eq!(
        declaration,
        Declaration {
            name: "width".to_string(),
            value: vec![ComponentValue::Function(Function {
                name: "calc".to_string(),
                value: vec![pt(Token::Number(1))],
            })],
            important: false,
        }
    );
}

#[test]
fn unterminated_block_accepted_up_to_eof() {
    // div { color
    let tokens = vec![
        ident("div"),
        Token::Whitespace,
        Token::BraceOpen,
        Token::Whitespace,
        ident("color"),
    ];
    let mut parser = Parser::new(tokens);
    let rules = parser.parse_a_stylesheet().rules;
    assert_eq!(rules.len(), 1);
    assert_eq!(
        rules[0],
        Rule::QualifiedRule(QualifiedRule {
            prelude: vec![pt(ident("div")), pt(Token::Whitespace)],
            block: Some(SimpleBlock {
                token: Token::BraceOpen,
                value: vec![pt(Token::Whitespace), pt(ident("color"))],
            }),
        })
    );
}

#[test]
fn unterminated_qualified_rule_accepted_at_eof() {
    // div <eof> : the rule is returned as-is, prelude collected, no block
    let tokens = vec![ident("div"), Token::Whitespace];
    let mut parser = Parser::new(tokens);
    let rules = parser.parse_a_stylesheet().rules;
    assert_eq!(rules.len(), 1);
    assert_eq!(
        rules[0],
        Rule::QualifiedRule(QualifiedRule {
            prelude: vec![pt(ident("div")), pt(Token::Whitespace)],
            block: None,
        })
    );

    // The same holds through the single-rule entry point.
    let tokens = vec![Token::Whitespace, ident("div")];
    let mut parser = Parser::new(tokens);
    assert_eq!(
        parser.parse_a_rule().unwrap(),
        Rule::QualifiedRule(QualifiedRule { prelude: vec![pt(ident("div"))], block: None })
    );
}

#[test]
fn cdo_cdc_discarded_at_top_level_only() {
    let tokens = vec![Token::CDO, Token::Whitespace, Token::CDC, Token::Whitespace];
    let mut parser = Parser::new(tokens);
    let rules = parser.parse_a_stylesheet().rules;
    assert_eq!(rules.len(), 0);

    // In non-top-level mode a CDO starts a qualified rule, which runs to
    // EOF and is returned as-is with the marker in its prelude.
    let tokens = vec![Token::CDO, Token::Whitespace];
    let mut parser = Parser::new(tokens);
    let rules = parser.parse_a_list_of_rules();
    assert_eq!(rules.len(), 1);
    assert_eq!(
        rules[0],
        Rule::QualifiedRule(QualifiedRule {
            prelude: vec![pt(Token::CDO), pt(Token::Whitespace)],
            block: None,
        })
    );
}

#[test]
fn parse_a_rule_requires_exactly_one_rule() {
    let tokens = vec![
        Token::Whitespace,
        ident("div"),
        Token::BraceOpen,
        Token::BraceClose,
        Token::Whitespace,
    ];
    let mut parser = Parser::new(tokens);
    let rule = parser.parse_a_rule().unwrap();
    assert_eq!(
        rule,
        Rule::QualifiedRule(QualifiedRule {
            prelude: vec![pt(ident("div"))],
            block: Some(SimpleBlock { token: Token::BraceOpen, value: vec![] }),
        })
    );

    // Trailing tokens after the rule are a syntax error.
    let tokens = vec![
        ident("div"),
        Token::BraceOpen,
        Token::BraceClose,
        ident("p"),
    ];
    let mut parser = Parser::new(tokens);
    assert!(parser.parse_a_rule().is_err());

    // An empty input is a syntax error.
    let mut parser = Parser::new(vec![Token::Whitespace]);
    assert!(parser.parse_a_rule().is_err());
}

#[test]
fn parse_an_at_rule() {
    // @media screen { } extra ;-terminated at-rule
    let tokens = vec![
        Token::AtKeyword("media".to_string()),
        Token::Whitespace,
        ident("screen"),
        Token::Whitespace,
        Token::BraceOpen,
        Token::BraceClose,
        Token::AtKeyword("import".to_string()),
        Token::Whitespace,
        ident("x"),
        Token::Semicolon,
    ];
    let mut parser = Parser::new(tokens);
    let rules = parser.parse_a_list_of_rules();
    assert_eq!(rules.len(), 2);
    match &rules[0] {
        Rule::AtRule(a) => {
            assert_eq!(a.name, "media");
            assert_eq!(
                a.prelude,
                vec![pt(Token::Whitespace), pt(ident("screen")), pt(Token::Whitespace)]
            );
            assert!(a.block.is_some());
        }
        _ => panic!("expected an at-rule"),
    }
    match &rules[1] {
        Rule::AtRule(a) => {
            assert_eq!(a.name, "import");
            assert_eq!(a.prelude, vec![pt(Token::Whitespace), pt(ident("x"))]);
            assert!(a.block.is_none());
        }
        _ => panic!("expected an at-rule"),
    }
}

#[test]
fn parse_a_component_value_exactness() {
    let tokens = vec![Token::Whitespace, ident("x"), Token::Whitespace];
    let mut parser = Parser::new(tokens);
    assert_eq!(parser.parse_a_component_value().unwrap(), pt(ident("x")));

    let tokens = vec![ident("x"), ident("y")];
    let mut parser = Parser::new(tokens);
    assert!(parser.parse_a_component_value().is_err());

    let mut parser = Parser::new(vec![Token::Whitespace]);
    assert!(parser.parse_a_component_value().is_err());
}

#[test]
fn parse_a_list_of_component_values_collects_until_eof() {
    let tokens = vec![ident("a"), Token::Comma, Token::BracketOpen, ident("b"), Token::BracketClose];
    let mut parser = Parser::new(tokens);
    let values = parser.parse_a_list_of_component_values();
    assert_eq!(
        values,
        vec![
            pt(ident("a")),
            pt(Token::Comma),
            ComponentValue::SimpleBlock(SimpleBlock {
                token: Token::BracketOpen,
                value: vec![pt(ident("b"))],
            }),
        ]
    );
}

#[test]
fn comma_separated_groups_split_on_top_level_commas_only() {
    // a, f(x, y), <empty>
    let tokens = vec![
        ident("a"),
        Token::Comma,
        Token::Function("f".to_string()),
        ident("x"),
        Token::Comma,
        ident("y"),
        Token::ParentheseClose,
        Token::Comma,
    ];
    let mut parser = Parser::new(tokens);
    let groups = parser.parse_a_comma_separated_list_of_component_values();
    assert_eq!(groups.len(), 3);
    assert_eq!(groups[0], vec![pt(ident("a"))]);
    assert_eq!(
        groups[1],
        vec![ComponentValue::Function(Function {
            name: "f".to_string(),
            value: vec![pt(ident("x")), pt(Token::Comma), pt(ident("y"))],
        })]
    );
    assert_eq!(groups[2], vec![]);
}

#[test]
fn declaration_list_carries_nested_at_rules() {
    // color: red; @layer base; display: block
    let tokens = vec![
        ident("color"),
        Token::Colon,
        ident("red"),
        Token::Semicolon,
        Token::AtKeyword("layer".to_string()),
        Token::Whitespace,
        ident("base"),
        Token::Semicolon,
        ident("display"),
        Token::Colon,
        ident("block"),
    ];
    let mut parser = Parser::new(tokens);
    let entries = parser.parse_a_list_of_declarations();
    assert_eq!(entries.len(), 3);
    match &entries[1] {
        DeclarationOrAtRule::AtRule(a) => {
            assert_eq!(a.name, "layer");
            assert_eq!(a.prelude, vec![pt(Token::Whitespace), pt(ident("base"))]);
            assert!(a.block.is_none());
        }
        _ => panic!("expected a nested at-rule"),
    }
    match &entries[2] {
        DeclarationOrAtRule::Declaration(d) => {
            assert_eq!(d.name, "display");
            assert_eq!(d.value, vec![pt(ident("block"))]);
        }
        _ => panic!("expected a declaration"),
    }
}

#[test]
fn unterminated_function_accepted_up_to_eof() {
    // width: calc(1
    let tokens = vec![
        ident("width"),
        Token::Colon,
        Token::Function("calc".to_string()),
        Token::Number(1),
    ];
    let mut parser = Parser::new(tokens);
    let declaration = parser.parse_a_declaration().unwrap();
    assert_eq!(
        declaration,
        Declaration {
            name: "width".to_string(),
            value: vec![ComponentValue::Function(Function {
                name: "calc".to_string(),
                value: vec![pt(Token::Number(1))],
            })],
            important: false,
        }
    );
}

#[test]
fn diagnostics_are_off_by_default_and_gated_per_emission() {
    // div { <eof> : an unterminated block
    let tokens = vec![ident("div"), Token::Whitespace, Token::BraceOpen, Token::Whitespace];
    let mut parser = Parser::new(tokens);
    let _ = parser.parse_a_stylesheet();
    // The default policy is to ignore: nothing is surfaced.
    assert!(parser.diagnostics().is_empty());

    let tokens = vec![ident("div"), Token::Whitespace, Token::BraceOpen, Token::Whitespace];
    let mut parser = Parser::new(tokens);
    parser.set_diagnostics_enabled(true);
    let stylesheet = parser.parse_a_stylesheet();
    // The result is the same either way; only the sink differs.
    assert_eq!(stylesheet.rules.len(), 1);
    assert_eq!(
        parser.diagnostics(),
        &vec![ParseDiagnostic::UnexpectedEofInSimpleBlock]
    );
}

#[test]
fn diagnostics_surface_each_tolerated_malformation() {
    // color: red; 123invalid; display block
    let tokens = vec![
        ident("color"),
        Token::Colon,
        Token::Whitespace,
        ident("red"),
        Token::Semicolon,
        Token::Number(123),
        ident("invalid"),
        Token::Semicolon,
        ident("display"),
        Token::Whitespace,
        ident("block"),
    ];
    let mut parser = Parser::new(tokens);
    parser.set_diagnostics_enabled(true);
    let entries = parser.parse_a_list_of_declarations();
    assert_eq!(entries.len(), 1);
    assert_eq!(
        parser.diagnostics(),
        &vec![
            ParseDiagnostic::UnexpectedTokenInDeclarationList,
            ParseDiagnostic::MissingColonInDeclaration,
        ]
    );
}

#[test]
fn diagnostics_for_unterminated_rules_and_functions() {
    // div <eof> : the unterminated qualified rule is returned with a diagnostic.
    let tokens = vec![ident("div")];
    let mut parser = Parser::new(tokens);
    parser.set_diagnostics_enabled(true);
    assert!(parser.parse_a_rule().is_ok());
    assert_eq!(
        parser.diagnostics(),
        &vec![ParseDiagnostic::UnexpectedEofInQualifiedRule]
    );

    // @media x <eof>
    let tokens = vec![Token::AtKeyword("media".to_string()), Token::Whitespace, ident("x")];
    let mut parser = Parser::new(tokens);
    parser.set_diagnostics_enabled(true);
    let rules = parser.parse_a_list_of_rules();
    assert_eq!(rules.len(), 1);
    assert_eq!(
        parser.diagnostics(),
        &vec![ParseDiagnostic::UnexpectedEofInAtRule]
    );

    // f(x <eof>
    let tokens = vec![Token::Function("f".to_string()), ident("x")];
    let mut parser = Parser::new(tokens);
    parser.set_diagnostics_enabled(true);
    assert!(parser.parse_a_component_value().is_ok());
    assert_eq!(
        parser.diagnostics(),
        &vec![ParseDiagnostic::UnexpectedEofInFunction]
    );
}

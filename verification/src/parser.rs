//! The CSS parser: a recursive-descent consumer of the token stream with one
//! entry point per top-level grammar production. Every entry point's result
//! is pinned to the corresponding model function of `parse_spec`.

use vstd::prelude::*;

use crate::token::{token_eq, Token, TokenView};
use crate::cssom::{
    cv_groups_view, cv_vec_view, AtRule, AtRuleView, ComponentValue, ComponentValueView,
    Declaration, DeclarationOrAtRule, DeclarationOrAtRuleView, Function, ListOfRules,
    ParseDiagnostic, QualifiedRule, QualifiedRuleView, Rule, RuleView, SimpleBlock, StyleSheet,
    SyntaxError,
};
use crate::parse_spec::{
    at_rule_diags, at_rule_spec, at_rule_tail_diags, at_rule_tail_spec, block_items_diags,
    block_items_spec, close_of, comma_groups_diags, comma_groups_spec, consume_while_spec,
    cv_diags, cv_entry_diags, cv_entry_spec, cv_list_diags, cv_list_spec, cv_spec,
    cvs_until_eof_diags, cvs_until_eof_spec, cvs_until_semi_diags, cvs_until_semi_spec,
    declaration_diags, declaration_entry_diags, declaration_entry_spec,
    declaration_from_cvs_spec, declaration_list_diags, declaration_list_spec, declaration_spec,
    emitted, finalize_declaration_spec, is_block_open, is_important_ident, is_ws_cv, next_pos,
    qualified_rule_diags, qualified_rule_spec, rule_entry_diags, rule_entry_spec, rules_diags,
    rules_spec, skip_ws_cvs, tok_at, trim_ws_suffix,
};

verus! {

/// If everything from index `k` on is whitespace and the value before it is
/// not, stripping trailing whitespace is exactly cutting at `k`.
proof fn lemma_trim_of_ws_suffix(u: Seq<ComponentValueView>, k: int)
    requires
        0 <= k <= u.len(),
        forall|i: int| k <= i < u.len() ==> is_ws_cv(#[trigger] u[i]),
        k > 0 ==> !is_ws_cv(u[k - 1]),
    ensures
        trim_ws_suffix(u) == u.subrange(0, k),
    decreases u.len(),
{
    if u.len() == k {
        assert(u.subrange(0, k) =~= u);
    } else {
        assert(is_ws_cv(u.last()));
        lemma_trim_of_ws_suffix(u.drop_last(), k);
        assert(u.drop_last().subrange(0, k) =~= u.subrange(0, k));
    }
}

/// ASCII case-insensitive check for the ident `important`.
fn is_important_string(s: &String) -> (r: bool)
    ensures
        r == is_important_ident(s@),
{
    let len = s.as_str().unicode_len();
    if len != 9 {
        return false;
    }
    let a = s.as_str();
    let c0 = a.get_char(0);
    let c1 = a.get_char(1);
    let c2 = a.get_char(2);
    let c3 = a.get_char(3);
    let c4 = a.get_char(4);
    let c5 = a.get_char(5);
    let c6 = a.get_char(6);
    let c7 = a.get_char(7);
    let c8 = a.get_char(8);
    (c0 == 'i' || c0 == 'I') && (c1 == 'm' || c1 == 'M') && (c2 == 'p' || c2 == 'P') && (c3 == 'o'
        || c3 == 'O') && (c4 == 'r' || c4 == 'R') && (c5 == 't' || c5 == 'T') && (c6 == 'a' || c6
        == 'A') && (c7 == 'n' || c7 == 'N') && (c8 == 't' || c8 == 'T')
}

/// Strips trailing preserved whitespace tokens from a value run.
fn trim_trailing_whitespace(value: &mut Vec<ComponentValue>)
    ensures
        cv_vec_view(*final(value)) == trim_ws_suffix(cv_vec_view(*old(value))),
{
    loop
        invariant_except_break
            trim_ws_suffix(cv_vec_view(*old(value))) == trim_ws_suffix(cv_vec_view(*value)),
        ensures
            cv_vec_view(*value) == trim_ws_suffix(cv_vec_view(*old(value))),
        decreases value@.len(),
    {
        let ghost v_pre = *value;
        if value.len() == 0 {
            break ;
        }
        let is_ws = match &value[value.len() - 1] {
            ComponentValue::PerservedToken(Token::Whitespace) => true,
            _ => false,
        };
        if !is_ws {
            proof {
                assert(!is_ws_cv(cv_vec_view(*value).last()));
            }
            break ;
        }
        let _last = value.pop();
        proof {
            assert(cv_vec_view(*value) =~= cv_vec_view(v_pre).drop_last());
            assert(is_ws_cv(cv_vec_view(v_pre).last()));
        }
    }
}

/// Finishes a declaration: detects and removes a trailing `!important` pair
/// (scanning from the end past whitespace), then strips trailing whitespace.
fn finalize_declaration(name: String, value: Vec<ComponentValue>) -> (r: Declaration)
    ensures
        r@ == finalize_declaration_spec(name@, cv_vec_view(value)),
{
    let ghost v0 = cv_vec_view(value);
    let mut v = value;
    trim_trailing_whitespace(&mut v);
    let ghost t1 = cv_vec_view(v);
    let n = v.len();
    let mut important = false;
    if n > 0 {
        let last_is_imp = match &v[n - 1] {
            ComponentValue::PerservedToken(Token::Ident(s)) => is_important_string(s),
            _ => false,
        };
        if last_is_imp {
            let mut k = n - 1;
            loop
                invariant_except_break
                    0 <= k <= n - 1,
                    n == v.len(),
                    t1 == cv_vec_view(v),
                    forall|i: int| k <= i < n - 1 ==> is_ws_cv(#[trigger] t1[i]),
                ensures
                    0 <= k <= n - 1,
                    forall|i: int| k <= i < n - 1 ==> is_ws_cv(#[trigger] t1[i]),
                    k > 0 ==> !is_ws_cv(t1[k - 1]),
                decreases k,
            {
                if k == 0 {
                    break ;
                }
                let step_ws = match &v[k - 1] {
                    ComponentValue::PerservedToken(Token::Whitespace) => true,
                    _ => false,
                };
                if !step_ws {
                    break ;
                }
                k = k - 1;
            }
            proof {
                let u = t1.drop_last();
                assert(forall|i: int| k <= i < u.len() ==> is_ws_cv(#[trigger] u[i]));
                lemma_trim_of_ws_suffix(u, k as int);
            }
            if k > 0 {
                let is_bang = match &v[k - 1] {
                    ComponentValue::PerservedToken(Token::Delim(c)) => *c == '!',
                    _ => false,
                };
                if is_bang {
                    important = true;
                    v.truncate(k - 1);
                    proof {
                        assert(cv_vec_view(v) =~= t1.subrange(0, k - 1));
                        assert(t1.drop_last().subrange(0, k as int).drop_last() =~= t1.subrange(
                            0,
                            k - 1,
                        ));
                    }
                    trim_trailing_whitespace(&mut v);
                }
            }
        }
    }
    Declaration { name, value: v, important }
}

/// The CSS parser: a cursor over a fully materialized token stream, the
/// top-level flag that decides how CDO/CDC markers are treated, and the
/// diagnostic sink with its toggle, checked at every emission.
pub struct Parser {
    tokens: Vec<Token>,
    pos: usize,
    top_level: bool,
    diagnostics_enabled: bool,
    diagnostics: Vec<ParseDiagnostic>,
}

impl Parser {
    /// The token stream under the parser, as a sequence of token models.
    pub closed spec fn toks(&self) -> Seq<TokenView> {
        self.tokens.deep_view()
    }

    /// The cursor: how many tokens have been consumed.
    pub closed spec fn cursor(&self) -> int {
        self.pos as int
    }

    /// Whether the parser is in top-level (stylesheet) mode.
    pub closed spec fn top_mode(&self) -> bool {
        self.top_level
    }

    /// Whether diagnostic emission is switched on.
    pub closed spec fn diags_on(&self) -> bool {
        self.diagnostics_enabled
    }

    /// The diagnostics surfaced so far.
    pub closed spec fn diags(&self) -> Seq<ParseDiagnostic> {
        self.diagnostics@
    }

    #[verifier::type_invariant]
    spec fn wf(&self) -> bool {
        self.pos <= self.tokens@.len()
    }

    /// A parser over the given token stream, with the cursor at the start
    /// and diagnostic emission off (the default policy is to ignore).
    pub fn new(tokens: Vec<Token>) -> (r: Self)
        ensures
            r.toks() == tokens.deep_view(),
            r.cursor() == 0,
            !r.top_mode(),
            !r.diags_on(),
            r.diags() == Seq::<ParseDiagnostic>::empty(),
    {
        Self {
            tokens,
            pos: 0,
            top_level: false,
            diagnostics_enabled: false,
            diagnostics: Vec::new(),
        }
    }

    /// Switches diagnostic emission on or off; the flag is read at every
    /// emission, and gates only the sink, never the parse.
    pub fn set_diagnostics_enabled(&mut self, on: bool)
        ensures
            final(self).toks() == old(self).toks(),
            final(self).cursor() == old(self).cursor(),
            final(self).top_mode() == old(self).top_mode(),
            final(self).diags() == old(self).diags(),
            final(self).diags_on() == on,
    {
        proof {
            use_type_invariant(&*self);
        }
        self.diagnostics_enabled = on;
    }

    /// The diagnostics surfaced so far.
    pub fn diagnostics(&self) -> (r: &Vec<ParseDiagnostic>)
        ensures
            r@ == self.diags(),
    {
        &self.diagnostics
    }

    /// Surfaces one diagnostic: appended to the sink when the toggle is on,
    /// dropped when it is off.
    fn emit(&mut self, diagnostic: ParseDiagnostic)
        ensures
            final(self).toks() == old(self).toks(),
            final(self).cursor() == old(self).cursor(),
            final(self).top_mode() == old(self).top_mode(),
            final(self).diags_on() == old(self).diags_on(),
            final(self).diags() == old(self).diags() + emitted(
                old(self).diags_on(),
                seq![diagnostic],
            ),
    {
        proof {
            use_type_invariant(&*self);
        }
        if self.diagnostics_enabled {
            let mut sink: Vec<ParseDiagnostic> = Vec::new();
            std::mem::swap(&mut sink, &mut self.diagnostics);
            sink.push(diagnostic);
            self.diagnostics = sink;
            proof {
                assert(self.diags() =~= old(self).diags() + seq![diagnostic]);
            }
        } else {
            proof {
                assert(self.diags() + emitted(self.diags_on(), seq![diagnostic]) =~= self.diags());
            }
        }
    }

    /// The token at the cursor, without consuming it; past the end of the
    /// stream this is EOF.
    fn peek_next_token(&self) -> (t: Token)
        ensures
            t@ == tok_at(self.toks(), self.cursor()),
    {
        proof {
            use_type_invariant(&*self);
        }
        if self.pos < self.tokens.len() {
            self.tokens[self.pos].clone()
        } else {
            Token::EOF
        }
    }

    /// The token at the cursor, consuming it; past the end of the stream
    /// this is EOF and the cursor does not move.
    fn consume_next_token(&mut self) -> (t: Token)
        ensures
            final(self).toks() == old(self).toks(),
            final(self).top_mode() == old(self).top_mode(),
            final(self).diags_on() == old(self).diags_on(),
            final(self).diags() == old(self).diags(),
            t@ == tok_at(old(self).toks(), old(self).cursor()),
            final(self).cursor() == next_pos(old(self).toks(), old(self).cursor()),
    {
        proof {
            use_type_invariant(&*self);
        }
        if self.pos < self.tokens.len() {
            let t = self.tokens[self.pos].clone();
            self.pos = self.pos + 1;
            t
        } else {
            Token::EOF
        }
    }

    /// One component value at the cursor: a block-open token starts a simple
    /// block, a function token starts a function, any other token (EOF
    /// included) is preserved as-is.
    fn consume_a_component_value(&mut self) -> (r: ComponentValue)
        ensures
            final(self).toks() == old(self).toks(),
            final(self).top_mode() == old(self).top_mode(),
            old(self).cursor() <= final(self).cursor(),
            !(tok_at(old(self).toks(), old(self).cursor()) is EOF) ==> final(self).cursor()
                >= old(self).cursor() + 1,
            final(self).diags_on() == old(self).diags_on(),
            final(self).diags() == old(self).diags() + emitted(
                old(self).diags_on(),
                cv_diags(old(self).toks(), old(self).cursor()),
            ),
            ({
                let (cv, p) = cv_spec(old(self).toks(), old(self).cursor());
                r@ == cv && final(self).cursor() == p
            }),
        decreases self.toks().len() - self.cursor(), 0int,
    {
        proof {
            use_type_invariant(&*self);
        }
        let t = self.consume_next_token();
        match t {
            Token::BraceOpen => ComponentValue::SimpleBlock(
                self.consume_a_simple_block(Token::BraceOpen),
            ),
            Token::BracketOpen => ComponentValue::SimpleBlock(
                self.consume_a_simple_block(Token::BracketOpen),
            ),
            Token::ParentheseOpen => ComponentValue::SimpleBlock(
                self.consume_a_simple_block(Token::ParentheseOpen),
            ),
            Token::Function(name) => ComponentValue::Function(self.consume_a_function(name)),
            other => {
                proof {
                    assert(old(self).diags() + emitted(
                        old(self).diags_on(),
                        cv_diags(old(self).toks(), old(self).cursor()),
                    ) =~= old(self).diags());
                }
                ComponentValue::PerservedToken(other)
            },
        }
    }

    /// The body of a simple block whose opening token was just consumed.
    fn consume_a_simple_block(&mut self, open: Token) -> (r: SimpleBlock)
        requires
            is_block_open(open@),
        ensures
            final(self).toks() == old(self).toks(),
            final(self).top_mode() == old(self).top_mode(),
            old(self).cursor() <= final(self).cursor(),
            final(self).diags_on() == old(self).diags_on(),
            final(self).diags() == old(self).diags() + emitted(
                old(self).diags_on(),
                block_items_diags(
                    old(self).toks(),
                    old(self).cursor(),
                    close_of(open@),
                    ParseDiagnostic::UnexpectedEofInSimpleBlock,
                ),
            ),
            ({
                let (items, p) = block_items_spec(
                    old(self).toks(),
                    old(self).cursor(),
                    close_of(open@),
                );
                r@.token == open@ && cv_vec_view(r.value) == items && final(self).cursor() == p
            }),
        decreases self.toks().len() - self.cursor(), 2int,
    {
        let close = match open {
            Token::BraceOpen => Token::BraceClose,
            Token::BracketOpen => Token::BracketClose,
            _ => Token::ParentheseClose,
        };
        let value = self.consume_component_values_until(
            &close,
            ParseDiagnostic::UnexpectedEofInSimpleBlock,
        );
        SimpleBlock { token: open, value }
    }

    /// The arguments of a function whose name token was just consumed.
    fn consume_a_function(&mut self, name: String) -> (r: Function)
        ensures
            final(self).toks() == old(self).toks(),
            final(self).top_mode() == old(self).top_mode(),
            old(self).cursor() <= final(self).cursor(),
            final(self).diags_on() == old(self).diags_on(),
            final(self).diags() == old(self).diags() + emitted(
                old(self).diags_on(),
                block_items_diags(
                    old(self).toks(),
                    old(self).cursor(),
                    TokenView::ParentheseClose,
                    ParseDiagnostic::UnexpectedEofInFunction,
                ),
            ),
            ({
                let (items, p) = block_items_spec(
                    old(self).toks(),
                    old(self).cursor(),
                    TokenView::ParentheseClose,
                );
                r@.name == name@ && cv_vec_view(r.value) == items && final(self).cursor() == p
            }),
        decreases self.toks().len() - self.cursor(), 2int,
    {
        let value = self.consume_component_values_until(
            &Token::ParentheseClose,
            ParseDiagnostic::UnexpectedEofInFunction,
        );
        Function { name, value }
    }

    /// Component values up to the close token (consumed) or EOF; an
    /// unterminated run at EOF is accepted as-is, surfacing the caller's
    /// unterminated-construct diagnostic.
    fn consume_component_values_until(&mut self, close: &Token, on_eof: ParseDiagnostic) -> (r:
        Vec<ComponentValue>)
        ensures
            final(self).toks() == old(self).toks(),
            final(self).top_mode() == old(self).top_mode(),
            old(self).cursor() <= final(self).cursor(),
            final(self).diags_on() == old(self).diags_on(),
            final(self).diags() == old(self).diags() + emitted(
                old(self).diags_on(),
                block_items_diags(old(self).toks(), old(self).cursor(), close@, on_eof),
            ),
            ({
                let (items, p) = block_items_spec(old(self).toks(), old(self).cursor(), close@);
                cv_vec_view(r) == items && final(self).cursor() == p
            }),
        decreases self.toks().len() - self.cursor(), 1int,
    {
        proof {
            use_type_invariant(&*self);
        }
        let mut items: Vec<ComponentValue> = Vec::new();
        let ghost s = self.toks();
        let ghost pos0 = self.cursor();
        let ghost on = self.diags_on();
        let ghost d0 = self.diags();
        let ghost total = block_items_spec(s, pos0, close@);
        let ghost dtotal = block_items_diags(s, pos0, close@, on_eof);
        proof {
            assert(cv_vec_view(items) + block_items_spec(s, pos0, close@).0 =~= block_items_spec(
                s,
                pos0,
                close@,
            ).0);
        }
        loop
            invariant_except_break
                s == old(self).toks(),
                pos0 == old(self).cursor(),
                self.toks() == s,
                self.top_mode() == old(self).top_mode(),
                pos0 <= self.cursor() <= s.len(),
                on == self.diags_on(),
                d0 == old(self).diags(),
                total == block_items_spec(s, pos0, close@),
                dtotal == block_items_diags(s, pos0, close@, on_eof),
                self.diags() + emitted(on, block_items_diags(s, self.cursor(), close@, on_eof))
                    == d0 + emitted(on, dtotal),
                ({
                    let rem = block_items_spec(s, self.cursor(), close@);
                    total.0 == cv_vec_view(items) + rem.0 && total.1 == rem.1
                }),
            ensures
                self.toks() == s,
                self.top_mode() == old(self).top_mode(),
                pos0 <= self.cursor() <= s.len(),
                self.diags_on() == on,
                self.diags() == d0 + emitted(on, dtotal),
                cv_vec_view(items) == total.0,
                self.cursor() == total.1,
            decreases s.len() - self.cursor(),
        {
            let ghost items_pre = items;
            let ghost pos_pre = self.cursor();
            let ghost diags_pre = self.diags();
            let t = self.peek_next_token();
            if token_eq(&t, close) {
                let _consumed = self.consume_next_token();
                proof {
                    assert(cv_vec_view(items) + Seq::<ComponentValueView>::empty() =~= cv_vec_view(
                        items,
                    ));
                    assert(self.diags() + emitted(
                        on,
                        Seq::<ParseDiagnostic>::empty(),
                    ) =~= self.diags());
                }
                break ;
            }
            if let Token::EOF = t {
                self.emit(on_eof);
                proof {
                    assert(cv_vec_view(items) + Seq::<ComponentValueView>::empty() =~= cv_vec_view(
                        items,
                    ));
                    assert(diags_pre + emitted(on, seq![on_eof]) =~= self.diags());
                }
                break ;
            }
            let cv = self.consume_a_component_value();
            proof {
                use_type_invariant(&*self);
            }
            items.push(cv);
            proof {
                assert(cv_vec_view(items) =~= cv_vec_view(items_pre).push(cv@));
                let rem_pre = block_items_spec(s, pos_pre, close@);
                let rem_now = block_items_spec(s, self.cursor(), close@);
                assert(rem_pre.0 == seq![cv@] + rem_now.0);
                assert(cv_vec_view(items_pre) + rem_pre.0 =~= cv_vec_view(items) + rem_now.0);
                let drem_pre = block_items_diags(s, pos_pre, close@, on_eof);
                let drem_now = block_items_diags(s, self.cursor(), close@, on_eof);
                assert(drem_pre == cv_diags(s, pos_pre) + drem_now);
                assert(emitted(on, drem_pre) =~= emitted(on, cv_diags(s, pos_pre)) + emitted(
                    on,
                    drem_now,
                ));
                assert((diags_pre + emitted(on, cv_diags(s, pos_pre))) + emitted(on, drem_now)
                    =~= diags_pre + emitted(on, drem_pre));
            }
        }
        items
    }

    /// A qualified rule at the cursor: component values fill the prelude
    /// until a brace opens the block; a rule unterminated at EOF is accepted
    /// as-is, with the prelude collected so far and no block.
    fn consume_a_qualified_rule(&mut self) -> (r: QualifiedRule)
        ensures
            final(self).toks() == old(self).toks(),
            final(self).top_mode() == old(self).top_mode(),
            old(self).cursor() <= final(self).cursor(),
            !(tok_at(old(self).toks(), old(self).cursor()) is EOF) ==> final(self).cursor()
                >= old(self).cursor() + 1,
            final(self).diags_on() == old(self).diags_on(),
            final(self).diags() == old(self).diags() + emitted(
                old(self).diags_on(),
                qualified_rule_diags(old(self).toks(), old(self).cursor()),
            ),
            ({
                let (q, p) = qualified_rule_spec(old(self).toks(), old(self).cursor());
                r@ == q && final(self).cursor() == p
            }),
        decreases self.toks().len() - self.cursor(), 3int,
    {
        proof {
            use_type_invariant(&*self);
        }
        let mut qualified_rule = QualifiedRule::new();
        let ghost s = self.toks();
        let ghost pos0 = self.cursor();
        let ghost on = self.diags_on();
        let ghost d0 = self.diags();
        let ghost total = qualified_rule_spec(s, pos0);
        let ghost dtotal = qualified_rule_diags(s, pos0);
        loop
            invariant_except_break
                s == old(self).toks(),
                pos0 == old(self).cursor(),
                self.toks() == s,
                self.top_mode() == old(self).top_mode(),
                pos0 <= self.cursor() <= s.len(),
                on == self.diags_on(),
                d0 == old(self).diags(),
                total == qualified_rule_spec(s, pos0),
                dtotal == qualified_rule_diags(s, pos0),
                self.diags() + emitted(on, qualified_rule_diags(s, self.cursor())) == d0
                    + emitted(on, dtotal),
                qualified_rule@.block is None,
                ({
                    let rem = qualified_rule_spec(s, self.cursor());
                    total.1 == rem.1 && total.0.prelude == qualified_rule@.prelude + rem.0.prelude
                        && total.0.block == rem.0.block
                }),
            ensures
                self.toks() == s,
                self.top_mode() == old(self).top_mode(),
                pos0 <= self.cursor(),
                self.cursor() >= pos0 + 1 || tok_at(s, pos0) is EOF,
                self.diags_on() == on,
                self.diags() == d0 + emitted(on, dtotal),
                qualified_rule@.prelude == total.0.prelude,
                qualified_rule@.block == total.0.block,
                self.cursor() == total.1,
            decreases s.len() - self.cursor(),
        {
            let ghost pos_pre = self.cursor();
            let ghost prelude_pre = qualified_rule@.prelude;
            let ghost diags_pre = self.diags();
            let t = self.peek_next_token();
            match t {
                Token::EOF => {
                    self.emit(ParseDiagnostic::UnexpectedEofInQualifiedRule);
                    proof {
                        assert(qualified_rule@.prelude + Seq::<ComponentValueView>::empty()
                            =~= qualified_rule@.prelude);
                        assert(diags_pre + emitted(
                            on,
                            seq![ParseDiagnostic::UnexpectedEofInQualifiedRule],
                        ) =~= self.diags());
                    }
                    break ;
                },
                Token::BraceOpen => {
                    let _open = self.consume_next_token();
                    let block = self.consume_a_simple_block(Token::BraceOpen);
                    proof {
                        use_type_invariant(&*self);
                        assert(qualified_rule@.prelude + Seq::<ComponentValueView>::empty()
                            =~= qualified_rule@.prelude);
                    }
                    qualified_rule.set_block(block);
                    break ;
                },
                _ => {
                    let cv = self.consume_a_component_value();
                    proof {
                        use_type_invariant(&*self);
                        let rem_pre = qualified_rule_spec(s, pos_pre);
                        let rem_now = qualified_rule_spec(s, self.cursor());
                        assert(prelude_pre + rem_pre.0.prelude =~= prelude_pre.push(cv@)
                            + rem_now.0.prelude);
                        let drem_pre = qualified_rule_diags(s, pos_pre);
                        let drem_now = qualified_rule_diags(s, self.cursor());
                        assert(drem_pre == cv_diags(s, pos_pre) + drem_now);
                        assert(emitted(on, drem_pre) =~= emitted(on, cv_diags(s, pos_pre))
                            + emitted(on, drem_now));
                        assert((diags_pre + emitted(on, cv_diags(s, pos_pre))) + emitted(
                            on,
                            drem_now,
                        ) =~= diags_pre + emitted(on, drem_pre));
                    }
                    qualified_rule.append_prelude(cv);
                },
            }
        }
        qualified_rule
    }

    /// An at-rule at the cursor, which must hold an at-keyword token: the
    /// prelude runs until a semicolon (consumed), EOF, or a brace-opened
    /// block; an unterminated at-rule at EOF is accepted as-is.
    fn consume_an_at_rule(&mut self) -> (r: AtRule)
        requires
            tok_at(old(self).toks(), old(self).cursor()) is AtKeyword,
        ensures
            final(self).toks() == old(self).toks(),
            final(self).top_mode() == old(self).top_mode(),
            final(self).cursor() >= old(self).cursor() + 1,
            final(self).diags_on() == old(self).diags_on(),
            final(self).diags() == old(self).diags() + emitted(
                old(self).diags_on(),
                at_rule_diags(old(self).toks(), old(self).cursor()),
            ),
            ({
                let (a, p) = at_rule_spec(old(self).toks(), old(self).cursor());
                r@ == a && final(self).cursor() == p
            }),
        decreases self.toks().len() - self.cursor(), 3int,
    {
        proof {
            use_type_invariant(&*self);
        }
        let t = self.consume_next_token();
        let name = match t {
            Token::AtKeyword(n) => n,
            _ => {
                proof {
                    assert(false);
                }
                String::new()
            },
        };
        let mut at_rule = AtRule::new(name);
        let ghost s = self.toks();
        let ghost pos1 = self.cursor();
        let ghost on = self.diags_on();
        let ghost d0 = self.diags();
        let ghost total = at_rule_tail_spec(s, pos1);
        let ghost dtotal = at_rule_tail_diags(s, pos1);
        loop
            invariant_except_break
                s == old(self).toks(),
                pos1 <= self.cursor() <= s.len(),
                self.toks() == s,
                self.top_mode() == old(self).top_mode(),
                on == self.diags_on(),
                d0 == old(self).diags(),
                total == at_rule_tail_spec(s, pos1),
                dtotal == at_rule_tail_diags(s, pos1),
                self.diags() + emitted(on, at_rule_tail_diags(s, self.cursor())) == d0 + emitted(
                    on,
                    dtotal,
                ),
                at_rule@.name == name@,
                at_rule@.block is None,
                ({
                    let rem = at_rule_tail_spec(s, self.cursor());
                    total.1 == rem.1 && total.0.0 == at_rule@.prelude + rem.0.0 && total.0.1
                        == rem.0.1
                }),
            ensures
                self.toks() == s,
                self.top_mode() == old(self).top_mode(),
                pos1 <= self.cursor(),
                self.diags_on() == on,
                self.diags() == d0 + emitted(on, dtotal),
                at_rule@.name == name@,
                at_rule@.prelude == total.0.0,
                at_rule@.block == total.0.1,
                self.cursor() == total.1,
            decreases s.len() - self.cursor(),
        {
            let ghost pos_pre = self.cursor();
            let ghost prelude_pre = at_rule@.prelude;
            let ghost diags_pre = self.diags();
            let t = self.peek_next_token();
            match t {
                Token::Semicolon => {
                    let _semi = self.consume_next_token();
                    proof {
                        assert(at_rule@.prelude + Seq::<ComponentValueView>::empty()
                            =~= at_rule@.prelude);
                        assert(self.diags() + emitted(
                            on,
                            Seq::<ParseDiagnostic>::empty(),
                        ) =~= self.diags());
                    }
                    break ;
                },
                Token::EOF => {
                    self.emit(ParseDiagnostic::UnexpectedEofInAtRule);
                    proof {
                        assert(at_rule@.prelude + Seq::<ComponentValueView>::empty()
                            =~= at_rule@.prelude);
                        assert(diags_pre + emitted(
                            on,
                            seq![ParseDiagnostic::UnexpectedEofInAtRule],
                        ) =~= self.diags());
                    }
                    break ;
                },
                Token::BraceOpen => {
                    let _open = self.consume_next_token();
                    let block = self.consume_a_simple_block(Token::BraceOpen);
                    proof {
                        use_type_invariant(&*self);
                        assert(at_rule@.prelude + Seq::<ComponentValueView>::empty()
                            =~= at_rule@.prelude);
                    }
                    at_rule.set_block(block);
                    break ;
                },
                _ => {
                    let cv = self.consume_a_component_value();
                    proof {
                        use_type_invariant(&*self);
                        let rem_pre = at_rule_tail_spec(s, pos_pre);
                        let rem_now = at_rule_tail_spec(s, self.cursor());
                        assert(prelude_pre + rem_pre.0.0 =~= prelude_pre.push(cv@) + rem_now.0.0);
                        let drem_pre = at_rule_tail_diags(s, pos_pre);
                        let drem_now = at_rule_tail_diags(s, self.cursor());
                        assert(drem_pre == cv_diags(s, pos_pre) + drem_now);
                        assert(emitted(on, drem_pre) =~= emitted(on, cv_diags(s, pos_pre))
                            + emitted(on, drem_now));
                        assert((diags_pre + emitted(on, cv_diags(s, pos_pre))) + emitted(
                            on,
                            drem_now,
                        ) =~= diags_pre + emitted(on, drem_pre));
                    }
                    at_rule.append_prelude(cv);
                },
            }
        }
        at_rule
    }

    /// Consumes tokens while the token at the cursor equals the given one.
    fn consume_while_next_token_is(&mut self, token: Token)
        ensures
            final(self).toks() == old(self).toks(),
            final(self).top_mode() == old(self).top_mode(),
            old(self).cursor() <= final(self).cursor(),
            final(self).diags_on() == old(self).diags_on(),
            final(self).diags() == old(self).diags(),
            final(self).cursor() == consume_while_spec(
                old(self).toks(),
                old(self).cursor(),
                token@,
            ),
    {
        proof {
            use_type_invariant(&*self);
        }
        let ghost s = self.toks();
        let ghost pos0 = self.cursor();
        loop
            invariant_except_break
                s == old(self).toks(),
                pos0 <= self.cursor() <= s.len(),
                self.toks() == s,
                self.top_mode() == old(self).top_mode(),
                self.diags_on() == old(self).diags_on(),
                self.diags() == old(self).diags(),
                consume_while_spec(s, pos0, token@) == consume_while_spec(
                    s,
                    self.cursor(),
                    token@,
                ),
            ensures
                self.toks() == s,
                self.top_mode() == old(self).top_mode(),
                pos0 <= self.cursor(),
                self.diags_on() == old(self).diags_on(),
                self.diags() == old(self).diags(),
                self.cursor() == consume_while_spec(s, pos0, token@),
            decreases s.len() - self.cursor(),
        {
            if self.pos >= self.tokens.len() {
                break ;
            }
            let t = self.peek_next_token();
            if !token_eq(&t, &token) {
                break ;
            }
            let _t = self.consume_next_token();
        }
    }

    /// A list of rules: whitespace is skipped, EOF ends the list, CDO/CDC
    /// markers are discarded in top-level mode and start a qualified rule
    /// otherwise, an at-keyword starts an at-rule, anything else starts a
    /// qualified rule.
    #[verifier::rlimit(100)]
    #[verifier::spinoff_prover]
    fn consume_a_list_of_rules(&mut self) -> (r: Vec<Rule>)
        ensures
            final(self).toks() == old(self).toks(),
            final(self).top_mode() == old(self).top_mode(),
            old(self).cursor() <= final(self).cursor(),
            final(self).diags_on() == old(self).diags_on(),
            final(self).diags() == old(self).diags() + emitted(
                old(self).diags_on(),
                rules_diags(old(self).toks(), old(self).cursor(), old(self).top_mode()),
            ),
            ({
                let (rules, p) = rules_spec(
                    old(self).toks(),
                    old(self).cursor(),
                    old(self).top_mode(),
                );
                r.deep_view() == rules && final(self).cursor() == p
            }),
        decreases self.toks().len() - self.cursor(), 4int,
    {
        proof {
            use_type_invariant(&*self);
        }
        let mut rules: Vec<Rule> = Vec::new();
        let ghost s = self.toks();
        let ghost pos0 = self.cursor();
        let ghost top = self.top_mode();
        let ghost on = self.diags_on();
        let ghost d0 = self.diags();
        let ghost total = rules_spec(s, pos0, top);
        let ghost dtotal = rules_diags(s, pos0, top);
        proof {
            assert(rules.deep_view() + total.0 =~= total.0);
        }
        loop
            invariant_except_break
                s == old(self).toks(),
                pos0 <= self.cursor() <= s.len(),
                self.toks() == s,
                self.top_mode() == top,
                on == self.diags_on(),
                d0 == old(self).diags(),
                total == rules_spec(s, pos0, top),
                dtotal == rules_diags(s, pos0, top),
                self.diags() + emitted(on, rules_diags(s, self.cursor(), top)) == d0 + emitted(
                    on,
                    dtotal,
                ),
                ({
                    let rem = rules_spec(s, self.cursor(), top);
                    total.0 == rules.deep_view() + rem.0 && total.1 == rem.1
                }),
            ensures
                self.toks() == s,
                self.top_mode() == top,
                pos0 <= self.cursor(),
                self.diags_on() == on,
                self.diags() == d0 + emitted(on, dtotal),
                rules.deep_view() == total.0,
                self.cursor() == total.1,
            decreases s.len() - self.cursor(),
        {
            let ghost pos_pre = self.cursor();
            let ghost rules_pre = rules;
            let ghost diags_pre = self.diags();
            let t = self.peek_next_token();
            if matches!(t, Token::EOF) {
                proof {
                    assert(rules.deep_view() + Seq::<RuleView>::empty() =~= rules.deep_view());
                    assert(self.diags() + emitted(
                        on,
                        Seq::<ParseDiagnostic>::empty(),
                    ) =~= self.diags());
                }
                break ;
            } else if matches!(t, Token::Whitespace) {
                let _t = self.consume_next_token();
            } else if matches!(t, Token::CDO | Token::CDC) && self.top_level {
                let _t = self.consume_next_token();
            } else if matches!(t, Token::AtKeyword(_)) {
                let a = self.consume_an_at_rule();
                proof {
                    use_type_invariant(&*self);
                }
                rules.push(Rule::AtRule(a));
                proof {
                    assert(rules.deep_view() =~= rules_pre.deep_view().push(
                        rules[rules.len() - 1]@,
                    ));
                    let rem_pre = rules_spec(s, pos_pre, top);
                    let rem_now = rules_spec(s, self.cursor(), top);
                    assert(rules_pre.deep_view() + rem_pre.0 =~= rules.deep_view() + rem_now.0);
                    let drem_pre = rules_diags(s, pos_pre, top);
                    let drem_now = rules_diags(s, self.cursor(), top);
                    assert(drem_pre == at_rule_diags(s, pos_pre) + drem_now);
                    assert(emitted(on, drem_pre) =~= emitted(on, at_rule_diags(s, pos_pre))
                        + emitted(on, drem_now));
                    assert((diags_pre + emitted(on, at_rule_diags(s, pos_pre))) + emitted(
                        on,
                        drem_now,
                    ) =~= diags_pre + emitted(on, drem_pre));
                }
            } else {
                let q = self.consume_a_qualified_rule();
                proof {
                    use_type_invariant(&*self);
                }
                rules.push(Rule::QualifiedRule(q));
                proof {
                    assert(rules.deep_view() =~= rules_pre.deep_view().push(
                        rules[rules.len() - 1]@,
                    ));
                    let rem_pre = rules_spec(s, pos_pre, top);
                    let rem_now = rules_spec(s, self.cursor(), top);
                    assert(rules_pre.deep_view() + rem_pre.0 =~= rules.deep_view() + rem_now.0);
                    let drem_pre = rules_diags(s, pos_pre, top);
                    let drem_now = rules_diags(s, self.cursor(), top);
                    assert(drem_pre == qualified_rule_diags(s, pos_pre) + drem_now);
                    assert(emitted(on, drem_pre) =~= emitted(on, qualified_rule_diags(s, pos_pre))
                        + emitted(on, drem_now));
                    assert((diags_pre + emitted(on, qualified_rule_diags(s, pos_pre))) + emitted(
                        on,
                        drem_now,
                    ) =~= diags_pre + emitted(on, drem_pre));
                }
            }
        }
        rules
    }

    /// Component values up to (not consuming) a top-level semicolon or EOF.
    fn consume_cvs_until_semicolon(&mut self) -> (r: Vec<ComponentValue>)
        ensures
            final(self).toks() == old(self).toks(),
            final(self).top_mode() == old(self).top_mode(),
            old(self).cursor() <= final(self).cursor(),
            ({
                let t = tok_at(old(self).toks(), old(self).cursor());
                !(t is Semicolon || t is EOF) ==> final(self).cursor() >= old(self).cursor() + 1
            }),
            final(self).diags_on() == old(self).diags_on(),
            final(self).diags() == old(self).diags() + emitted(
                old(self).diags_on(),
                cvs_until_semi_diags(old(self).toks(), old(self).cursor()),
            ),
            ({
                let (vals, p) = cvs_until_semi_spec(old(self).toks(), old(self).cursor());
                cv_vec_view(r) == vals && final(self).cursor() == p
            }),
    {
        proof {
            use_type_invariant(&*self);
        }
        let mut items: Vec<ComponentValue> = Vec::new();
        let ghost s = self.toks();
        let ghost pos0 = self.cursor();
        let ghost on = self.diags_on();
        let ghost d0 = self.diags();
        let ghost total = cvs_until_semi_spec(s, pos0);
        let ghost dtotal = cvs_until_semi_diags(s, pos0);
        proof {
            assert(cv_vec_view(items) + total.0 =~= total.0);
        }
        loop
            invariant_except_break
                s == old(self).toks(),
                pos0 <= self.cursor() <= s.len(),
                self.toks() == s,
                self.top_mode() == old(self).top_mode(),
                on == self.diags_on(),
                d0 == old(self).diags(),
                total == cvs_until_semi_spec(s, pos0),
                dtotal == cvs_until_semi_diags(s, pos0),
                self.diags() + emitted(on, cvs_until_semi_diags(s, self.cursor())) == d0
                    + emitted(on, dtotal),
                pos0 < self.cursor() || self.cursor() == pos0,
                self.cursor() == pos0 || self.cursor() >= pos0 + 1,
                ({
                    let rem = cvs_until_semi_spec(s, self.cursor());
                    total.0 == cv_vec_view(items) + rem.0 && total.1 == rem.1
                }),
            ensures
                self.toks() == s,
                self.top_mode() == old(self).top_mode(),
                pos0 <= self.cursor(),
                self.cursor() >= pos0 + 1 || tok_at(s, pos0) is Semicolon || tok_at(
                    s,
                    pos0,
                ) is EOF,
                self.diags_on() == on,
                self.diags() == d0 + emitted(on, dtotal),
                cv_vec_view(items) == total.0,
                self.cursor() == total.1,
            decreases s.len() - self.cursor(),
        {
            let ghost items_pre = items;
            let ghost pos_pre = self.cursor();
            let ghost diags_pre = self.diags();
            let t = self.peek_next_token();
            if matches!(t, Token::Semicolon | Token::EOF) {
                proof {
                    assert(cv_vec_view(items) + Seq::<ComponentValueView>::empty() =~= cv_vec_view(
                        items,
                    ));
                    assert(self.diags() + emitted(
                        on,
                        Seq::<ParseDiagnostic>::empty(),
                    ) =~= self.diags());
                }
                break ;
            }
            let cv = self.consume_a_component_value();
            proof {
                use_type_invariant(&*self);
            }
            items.push(cv);
            proof {
                assert(cv_vec_view(items) =~= cv_vec_view(items_pre).push(cv@));
                let rem_pre = cvs_until_semi_spec(s, pos_pre);
                let rem_now = cvs_until_semi_spec(s, self.cursor());
                assert(cv_vec_view(items_pre) + rem_pre.0 =~= cv_vec_view(items) + rem_now.0);
                let drem_pre = cvs_until_semi_diags(s, pos_pre);
                let drem_now = cvs_until_semi_diags(s, self.cursor());
                assert(drem_pre == cv_diags(s, pos_pre) + drem_now);
                assert(emitted(on, drem_pre) =~= emitted(on, cv_diags(s, pos_pre)) + emitted(
                    on,
                    drem_now,
                ));
                assert((diags_pre + emitted(on, cv_diags(s, pos_pre))) + emitted(on, drem_now)
                    =~= diags_pre + emitted(on, drem_pre));
            }
        }
        items
    }

    /// Component values up to (not consuming) EOF.
    fn consume_cvs_until_eof(&mut self) -> (r: Vec<ComponentValue>)
        ensures
            final(self).toks() == old(self).toks(),
            final(self).top_mode() == old(self).top_mode(),
            old(self).cursor() <= final(self).cursor(),
            final(self).diags_on() == old(self).diags_on(),
            final(self).diags() == old(self).diags() + emitted(
                old(self).diags_on(),
                cvs_until_eof_diags(old(self).toks(), old(self).cursor()),
            ),
            ({
                let (vals, p) = cvs_until_eof_spec(old(self).toks(), old(self).cursor());
                cv_vec_view(r) == vals && final(self).cursor() == p
            }),
    {
        proof {
            use_type_invariant(&*self);
        }
        let mut items: Vec<ComponentValue> = Vec::new();
        let ghost s = self.toks();
        let ghost pos0 = self.cursor();
        let ghost on = self.diags_on();
        let ghost d0 = self.diags();
        let ghost total = cvs_until_eof_spec(s, pos0);
        let ghost dtotal = cvs_until_eof_diags(s, pos0);
        proof {
            assert(cv_vec_view(items) + total.0 =~= total.0);
        }
        loop
            invariant_except_break
                s == old(self).toks(),
                pos0 <= self.cursor() <= s.len(),
                self.toks() == s,
                self.top_mode() == old(self).top_mode(),
                on == self.diags_on(),
                d0 == old(self).diags(),
                total == cvs_until_eof_spec(s, pos0),
                dtotal == cvs_until_eof_diags(s, pos0),
                self.diags() + emitted(on, cvs_until_eof_diags(s, self.cursor())) == d0
                    + emitted(on, dtotal),
                ({
                    let rem = cvs_until_eof_spec(s, self.cursor());
                    total.0 == cv_vec_view(items) + rem.0 && total.1 == rem.1
                }),
            ensures
                self.toks() == s,
                self.top_mode() == old(self).top_mode(),
                pos0 <= self.cursor(),
                self.diags_on() == on,
                self.diags() == d0 + emitted(on, dtotal),
                cv_vec_view(items) == total.0,
                self.cursor() == total.1,
            decreases s.len() - self.cursor(),
        {
            let ghost items_pre = items;
            let ghost pos_pre = self.cursor();
            let ghost diags_pre = self.diags();
            let t = self.peek_next_token();
            if matches!(t, Token::EOF) {
                proof {
                    assert(cv_vec_view(items) + Seq::<ComponentValueView>::empty() =~= cv_vec_view(
                        items,
                    ));
                    assert(self.diags() + emitted(
                        on,
                        Seq::<ParseDiagnostic>::empty(),
                    ) =~= self.diags());
                }
                break ;
            }
            let cv = self.consume_a_component_value();
            proof {
                use_type_invariant(&*self);
            }
            items.push(cv);
            proof {
                assert(cv_vec_view(items) =~= cv_vec_view(items_pre).push(cv@));
                let rem_pre = cvs_until_eof_spec(s, pos_pre);
                let rem_now = cvs_until_eof_spec(s, self.cursor());
                assert(cv_vec_view(items_pre) + rem_pre.0 =~= cv_vec_view(items) + rem_now.0);
                let drem_pre = cvs_until_eof_diags(s, pos_pre);
                let drem_now = cvs_until_eof_diags(s, self.cursor());
                assert(drem_pre == cv_diags(s, pos_pre) + drem_now);
                assert(emitted(on, drem_pre) =~= emitted(on, cv_diags(s, pos_pre)) + emitted(
                    on,
                    drem_now,
                ));
                assert((diags_pre + emitted(on, cv_diags(s, pos_pre))) + emitted(on, drem_now)
                    =~= diags_pre + emitted(on, drem_pre));
            }
        }
        items
    }

    /// A declaration read from an already-parsed `;`-delimited run of
    /// component values; without the leading ident or the colon there is no
    /// declaration.
    fn consume_a_declaration_from_list(tokens: Vec<ComponentValue>) -> (r: Option<Declaration>)
        ensures
            match r {
                Some(d) => declaration_from_cvs_spec(cv_vec_view(tokens)) == Some(d@),
                None => declaration_from_cvs_spec(cv_vec_view(tokens)) is None,
            },
    {
        let ghost cvs = cv_vec_view(tokens);
        if tokens.len() == 0 {
            return None;
        }
        let name = match &tokens[0] {
            ComponentValue::PerservedToken(Token::Ident(s)) => s.clone(),
            _ => {
                return None;
            },
        };
        let mut i: usize = 1;
        loop
            invariant_except_break
                1 <= i <= tokens@.len(),
                cvs == cv_vec_view(tokens),
                skip_ws_cvs(cvs, 1) == skip_ws_cvs(cvs, i as int),
            ensures
                1 <= i <= tokens@.len(),
                i as int == skip_ws_cvs(cvs, 1),
            decreases tokens@.len() - i,
        {
            if i >= tokens.len() {
                break ;
            }
            let step_ws = match &tokens[i] {
                ComponentValue::PerservedToken(Token::Whitespace) => true,
                _ => false,
            };
            if !step_ws {
                break ;
            }
            i = i + 1;
        }
        if i >= tokens.len() {
            return None;
        }
        let is_colon = match &tokens[i] {
            ComponentValue::PerservedToken(Token::Colon) => true,
            _ => false,
        };
        if !is_colon {
            return None;
        }
        let mut j: usize = i + 1;
        loop
            invariant_except_break
                i + 1 <= j <= tokens@.len(),
                cvs == cv_vec_view(tokens),
                skip_ws_cvs(cvs, i + 1) == skip_ws_cvs(cvs, j as int),
            ensures
                i + 1 <= j <= tokens@.len(),
                j as int == skip_ws_cvs(cvs, i + 1),
            decreases tokens@.len() - j,
        {
            if j >= tokens.len() {
                break ;
            }
            let step_ws = match &tokens[j] {
                ComponentValue::PerservedToken(Token::Whitespace) => true,
                _ => false,
            };
            if !step_ws {
                break ;
            }
            j = j + 1;
        }
        let mut tokens = tokens;
        let value = tokens.split_off(j);
        proof {
            assert(cv_vec_view(value) =~= cvs.skip(j as int));
        }
        Some(finalize_declaration(name, value))
    }

    /// A declaration read from the token stream itself: the cursor must hold
    /// the name ident; after optional whitespace a colon must follow, else
    /// there is no declaration; the value runs to EOF.
    fn consume_a_declaration(&mut self) -> (r: Option<Declaration>)
        requires
            tok_at(old(self).toks(), old(self).cursor()) is Ident,
        ensures
            final(self).toks() == old(self).toks(),
            final(self).top_mode() == old(self).top_mode(),
            old(self).cursor() <= final(self).cursor(),
            final(self).diags_on() == old(self).diags_on(),
            final(self).diags() == old(self).diags() + emitted(
                old(self).diags_on(),
                declaration_diags(old(self).toks(), old(self).cursor()),
            ),
            ({
                let (d, p) = declaration_spec(old(self).toks(), old(self).cursor());
                final(self).cursor() == p && (match r {
                    Some(decl) => d == Some(decl@),
                    None => d is None,
                })
            }),
    {
        proof {
            use_type_invariant(&*self);
        }
        let t = self.consume_next_token();
        let name = match t {
            Token::Ident(n) => n,
            _ => {
                proof {
                    assert(false);
                }
                String::new()
            },
        };
        self.consume_while_next_token_is(Token::Whitespace);
        let c = self.peek_next_token();
        if !matches!(c, Token::Colon) {
            self.emit(ParseDiagnostic::MissingColonInDeclaration);
            return None;
        }
        let _colon = self.consume_next_token();
        self.consume_while_next_token_is(Token::Whitespace);
        let vals = self.consume_cvs_until_eof();
        Some(finalize_declaration(name, vals))
    }

    /// A declaration list: whitespace and stray semicolons are skipped, EOF
    /// ends the list, an at-keyword contributes a nested at-rule, an ident
    /// opens a `;`-delimited segment read as one declaration (contributing
    /// nothing if its colon-presence check fails), and any other token is an
    /// error segment whose tokens are discarded up to the next semicolon or
    /// EOF.
    #[verifier::rlimit(100)]
    #[verifier::spinoff_prover]
    fn consume_a_list_of_declarations(&mut self) -> (r: Vec<DeclarationOrAtRule>)
        ensures
            final(self).toks() == old(self).toks(),
            final(self).top_mode() == old(self).top_mode(),
            old(self).cursor() <= final(self).cursor(),
            final(self).diags_on() == old(self).diags_on(),
            final(self).diags() == old(self).diags() + emitted(
                old(self).diags_on(),
                declaration_list_diags(old(self).toks(), old(self).cursor()),
            ),
            ({
                let (ds, p) = declaration_list_spec(old(self).toks(), old(self).cursor());
                r.deep_view() == ds && final(self).cursor() == p
            }),
    {
        proof {
            use_type_invariant(&*self);
        }
        let mut result: Vec<DeclarationOrAtRule> = Vec::new();
        let ghost s = self.toks();
        let ghost pos0 = self.cursor();
        let ghost on = self.diags_on();
        let ghost d0 = self.diags();
        let ghost total = declaration_list_spec(s, pos0);
        let ghost dtotal = declaration_list_diags(s, pos0);
        proof {
            assert(result.deep_view() + total.0 =~= total.0);
        }
        loop
            invariant_except_break
                s == old(self).toks(),
                pos0 <= self.cursor() <= s.len(),
                self.toks() == s,
                self.top_mode() == old(self).top_mode(),
                on == self.diags_on(),
                d0 == old(self).diags(),
                total == declaration_list_spec(s, pos0),
                dtotal == declaration_list_diags(s, pos0),
                self.diags() + emitted(on, declaration_list_diags(s, self.cursor())) == d0
                    + emitted(on, dtotal),
                ({
                    let rem = declaration_list_spec(s, self.cursor());
                    total.0 == result.deep_view() + rem.0 && total.1 == rem.1
                }),
            ensures
                self.toks() == s,
                self.top_mode() == old(self).top_mode(),
                pos0 <= self.cursor(),
                self.diags_on() == on,
                self.diags() == d0 + emitted(on, dtotal),
                result.deep_view() == total.0,
                self.cursor() == total.1,
            decreases s.len() - self.cursor(),
        {
            let ghost pos_pre = self.cursor();
            let ghost result_pre = result;
            let ghost diags_pre = self.diags();
            let t = self.peek_next_token();
            if matches!(t, Token::EOF) {
                proof {
                    assert(result.deep_view() + Seq::<DeclarationOrAtRuleView>::empty()
                        =~= result.deep_view());
                    assert(self.diags() + emitted(
                        on,
                        Seq::<ParseDiagnostic>::empty(),
                    ) =~= self.diags());
                }
                break ;
            } else if matches!(t, Token::Whitespace | Token::Semicolon) {
                let _t = self.consume_next_token();
            } else if matches!(t, Token::AtKeyword(_)) {
                let a = self.consume_an_at_rule();
                proof {
                    use_type_invariant(&*self);
                }
                result.push(DeclarationOrAtRule::AtRule(a));
                proof {
                    assert(result.deep_view() =~= result_pre.deep_view().push(
                        result[result.len() - 1]@,
                    ));
                    let rem_pre = declaration_list_spec(s, pos_pre);
                    let rem_now = declaration_list_spec(s, self.cursor());
                    assert(result_pre.deep_view() + rem_pre.0 =~= result.deep_view() + rem_now.0);
                    let drem_pre = declaration_list_diags(s, pos_pre);
                    let drem_now = declaration_list_diags(s, self.cursor());
                    assert(drem_pre == at_rule_diags(s, pos_pre) + drem_now);
                    assert(emitted(on, drem_pre) =~= emitted(on, at_rule_diags(s, pos_pre))
                        + emitted(on, drem_now));
                    assert((diags_pre + emitted(on, at_rule_diags(s, pos_pre))) + emitted(
                        on,
                        drem_now,
                    ) =~= diags_pre + emitted(on, drem_pre));
                }
            } else if matches!(t, Token::Ident(_)) {
                let ident_tok = self.consume_next_token();
                let mut vals = self.consume_cvs_until_semicolon();
                proof {
                    use_type_invariant(&*self);
                }
                let ghost diags_mid = self.diags();
                let mut tmp: Vec<ComponentValue> = Vec::new();
                tmp.push(ComponentValue::PerservedToken(ident_tok));
                tmp.append(&mut vals);
                proof {
                    let (spec_vals, _p) = cvs_until_semi_spec(s, pos_pre + 1);
                    assert(cv_vec_view(tmp) =~= seq![
                        ComponentValueView::PerservedToken(tok_at(s, pos_pre)),
                    ] + spec_vals);
                }
                let ghost own_diag = (if declaration_from_cvs_spec(cv_vec_view(tmp)) is None {
                    seq![ParseDiagnostic::MissingColonInDeclaration]
                } else {
                    Seq::<ParseDiagnostic>::empty()
                });
                match Self::consume_a_declaration_from_list(tmp) {
                    Some(d) => {
                        result.push(DeclarationOrAtRule::Declaration(d));
                        proof {
                            assert(result.deep_view() =~= result_pre.deep_view().push(
                                result[result.len() - 1]@,
                            ));
                            let rem_pre = declaration_list_spec(s, pos_pre);
                            let rem_now = declaration_list_spec(s, self.cursor());
                            assert(result_pre.deep_view() + rem_pre.0 =~= result.deep_view()
                                + rem_now.0);
                            assert(self.diags() + emitted(
                                on,
                                Seq::<ParseDiagnostic>::empty(),
                            ) =~= self.diags());
                        }
                    },
                    None => {
                        self.emit(ParseDiagnostic::MissingColonInDeclaration);
                        proof {
                            assert(diags_mid + emitted(
                                on,
                                seq![ParseDiagnostic::MissingColonInDeclaration],
                            ) =~= self.diags());
                        }
                    },
                }
                proof {
                    let drem_pre = declaration_list_diags(s, pos_pre);
                    let drem_now = declaration_list_diags(s, self.cursor());
                    assert(drem_pre == cvs_until_semi_diags(s, pos_pre + 1) + own_diag
                        + drem_now);
                    assert(emitted(on, drem_pre) =~= emitted(
                        on,
                        cvs_until_semi_diags(s, pos_pre + 1),
                    ) + emitted(on, own_diag) + emitted(on, drem_now));
                    assert(((diags_pre + emitted(on, cvs_until_semi_diags(s, pos_pre + 1)))
                        + emitted(on, own_diag)) + emitted(on, drem_now) =~= diags_pre + emitted(
                        on,
                        drem_pre,
                    ));
                }
            } else {
                self.emit(ParseDiagnostic::UnexpectedTokenInDeclarationList);
                let ghost diags_mid = self.diags();
                let _discarded = self.consume_cvs_until_semicolon();
                proof {
                    use_type_invariant(&*self);
                    assert(diags_mid =~= diags_pre + emitted(
                        on,
                        seq![ParseDiagnostic::UnexpectedTokenInDeclarationList],
                    ));
                    let drem_pre = declaration_list_diags(s, pos_pre);
                    let drem_now = declaration_list_diags(s, self.cursor());
                    assert(drem_pre == seq![ParseDiagnostic::UnexpectedTokenInDeclarationList]
                        + cvs_until_semi_diags(s, pos_pre) + drem_now);
                    assert(emitted(on, drem_pre) =~= emitted(
                        on,
                        seq![ParseDiagnostic::UnexpectedTokenInDeclarationList],
                    ) + emitted(on, cvs_until_semi_diags(s, pos_pre)) + emitted(on, drem_now));
                    assert(((diags_pre + emitted(
                        on,
                        seq![ParseDiagnostic::UnexpectedTokenInDeclarationList],
                    )) + emitted(on, cvs_until_semi_diags(s, pos_pre))) + emitted(on, drem_now)
                        =~= diags_pre + emitted(on, drem_pre));
                }
            }
        }
        result
    }

    /// Parses a stylesheet: a list of rules in top-level mode, so CDO/CDC
    /// markers are discarded.
    pub fn parse_a_stylesheet(&mut self) -> (r: StyleSheet)
        ensures
            final(self).toks() == old(self).toks(),
            old(self).cursor() <= final(self).cursor(),
            final(self).diags_on() == old(self).diags_on(),
            final(self).diags() == old(self).diags() + emitted(
                old(self).diags_on(),
                rules_diags(old(self).toks(), old(self).cursor(), true),
            ),
            ({
                let (rules, p) = rules_spec(old(self).toks(), old(self).cursor(), true);
                r@.rules == rules && final(self).cursor() == p
            }),
    {
        proof {
            use_type_invariant(&*self);
        }
        self.top_level = true;
        let rules = self.consume_a_list_of_rules();
        StyleSheet { rules }
    }

    /// Parses a list of rules in non-top-level mode, so CDO/CDC markers
    /// start qualified rules.
    pub fn parse_a_list_of_rules(&mut self) -> (r: ListOfRules)
        ensures
            final(self).toks() == old(self).toks(),
            old(self).cursor() <= final(self).cursor(),
            final(self).diags_on() == old(self).diags_on(),
            final(self).diags() == old(self).diags() + emitted(
                old(self).diags_on(),
                rules_diags(old(self).toks(), old(self).cursor(), false),
            ),
            ({
                let (rules, p) = rules_spec(old(self).toks(), old(self).cursor(), false);
                r.deep_view() == rules && final(self).cursor() == p
            }),
    {
        proof {
            use_type_invariant(&*self);
        }
        self.top_level = false;
        self.consume_a_list_of_rules()
    }

    /// Parses exactly one rule: fails with a syntax error unless, after
    /// skipping surrounding whitespace, the entire input is one rule; a rule
    /// unterminated at EOF is still the one rule.
    pub fn parse_a_rule(&mut self) -> (r: Result<Rule, SyntaxError>)
        ensures
            final(self).toks() == old(self).toks(),
            old(self).cursor() <= final(self).cursor(),
            final(self).diags_on() == old(self).diags_on(),
            final(self).diags() == old(self).diags() + emitted(
                old(self).diags_on(),
                rule_entry_diags(old(self).toks(), old(self).cursor()),
            ),
            ({
                let (rule, p) = rule_entry_spec(old(self).toks(), old(self).cursor());
                final(self).cursor() == p && (match r {
                    Ok(got) => rule == Some(got@),
                    Err(_) => rule is None,
                })
            }),
    {
        proof {
            use_type_invariant(&*self);
        }
        let ghost on = self.diags_on();
        self.consume_while_next_token_is(Token::Whitespace);
        let t = self.peek_next_token();
        if matches!(t, Token::EOF) {
            proof {
                assert(self.diags() + emitted(on, Seq::<ParseDiagnostic>::empty())
                    =~= self.diags());
            }
            return Err(SyntaxError);
        }
        let rule = if matches!(t, Token::AtKeyword(_)) {
            Rule::AtRule(self.consume_an_at_rule())
        } else {
            Rule::QualifiedRule(self.consume_a_qualified_rule())
        };
        self.consume_while_next_token_is(Token::Whitespace);
        let t2 = self.peek_next_token();
        if matches!(t2, Token::EOF) {
            Ok(rule)
        } else {
            Err(SyntaxError)
        }
    }

    /// Parses exactly one declaration: fails with a syntax error if the
    /// first non-whitespace token is not an ident, or if the declaration's
    /// colon-presence check fails.
    pub fn parse_a_declaration(&mut self) -> (r: Result<Declaration, SyntaxError>)
        ensures
            final(self).toks() == old(self).toks(),
            old(self).cursor() <= final(self).cursor(),
            final(self).diags_on() == old(self).diags_on(),
            final(self).diags() == old(self).diags() + emitted(
                old(self).diags_on(),
                declaration_entry_diags(old(self).toks(), old(self).cursor()),
            ),
            ({
                let (d, p) = declaration_entry_spec(old(self).toks(), old(self).cursor());
                final(self).cursor() == p && (match r {
                    Ok(got) => d == Some(got@),
                    Err(_) => d is None,
                })
            }),
    {
        proof {
            use_type_invariant(&*self);
        }
        let ghost on = self.diags_on();
        self.consume_while_next_token_is(Token::Whitespace);
        let t = self.peek_next_token();
        if matches!(t, Token::Ident(_)) {
            match self.consume_a_declaration() {
                Some(declaration) => Ok(declaration),
                None => Err(SyntaxError),
            }
        } else {
            proof {
                assert(self.diags() + emitted(on, Seq::<ParseDiagnostic>::empty())
                    =~= self.diags());
            }
            Err(SyntaxError)
        }
    }

    /// Parses a declaration list (mixed declarations and nested at-rules),
    /// used for rule bodies.
    pub fn parse_a_list_of_declarations(&mut self) -> (r: Vec<DeclarationOrAtRule>)
        ensures
            final(self).toks() == old(self).toks(),
            old(self).cursor() <= final(self).cursor(),
            final(self).diags_on() == old(self).diags_on(),
            final(self).diags() == old(self).diags() + emitted(
                old(self).diags_on(),
                declaration_list_diags(old(self).toks(), old(self).cursor()),
            ),
            ({
                let (ds, p) = declaration_list_spec(old(self).toks(), old(self).cursor());
                r.deep_view() == ds && final(self).cursor() == p
            }),
    {
        self.consume_a_list_of_declarations()
    }

    /// Parses exactly one component value: fails with a syntax error on an
    /// empty input or trailing tokens.
    pub fn parse_a_component_value(&mut self) -> (r: Result<ComponentValue, SyntaxError>)
        ensures
            final(self).toks() == old(self).toks(),
            old(self).cursor() <= final(self).cursor(),
            final(self).diags_on() == old(self).diags_on(),
            final(self).diags() == old(self).diags() + emitted(
                old(self).diags_on(),
                cv_entry_diags(old(self).toks(), old(self).cursor()),
            ),
            ({
                let (cv, p) = cv_entry_spec(old(self).toks(), old(self).cursor());
                final(self).cursor() == p && (match r {
                    Ok(got) => cv == Some(got@),
                    Err(_) => cv is None,
                })
            }),
    {
        proof {
            use_type_invariant(&*self);
        }
        let ghost on = self.diags_on();
        self.consume_while_next_token_is(Token::Whitespace);
        let t = self.peek_next_token();
        if matches!(t, Token::EOF) {
            proof {
                assert(self.diags() + emitted(on, Seq::<ParseDiagnostic>::empty())
                    =~= self.diags());
            }
            return Err(SyntaxError);
        }
        let value = self.consume_a_component_value();
        self.consume_while_next_token_is(Token::Whitespace);
        let t2 = self.peek_next_token();
        if matches!(t2, Token::EOF) {
            Ok(value)
        } else {
            Err(SyntaxError)
        }
    }

    /// Parses component values until EOF; the EOF itself is not kept.
    pub fn parse_a_list_of_component_values(&mut self) -> (r: Vec<ComponentValue>)
        ensures
            final(self).toks() == old(self).toks(),
            old(self).cursor() <= final(self).cursor(),
            final(self).diags_on() == old(self).diags_on(),
            final(self).diags() == old(self).diags() + emitted(
                old(self).diags_on(),
                cv_list_diags(old(self).toks(), old(self).cursor()),
            ),
            ({
                let (vals, p) = cv_list_spec(old(self).toks(), old(self).cursor());
                cv_vec_view(r) == vals && final(self).cursor() == p
            }),
    {
        proof {
            use_type_invariant(&*self);
        }
        let mut values: Vec<ComponentValue> = Vec::new();
        let ghost s = self.toks();
        let ghost pos0 = self.cursor();
        let ghost on = self.diags_on();
        let ghost d0 = self.diags();
        let ghost total = cv_list_spec(s, pos0);
        let ghost dtotal = cv_list_diags(s, pos0);
        proof {
            assert(cv_vec_view(values) + total.0 =~= total.0);
        }
        loop
            invariant_except_break
                s == old(self).toks(),
                pos0 <= self.cursor() <= s.len(),
                self.toks() == s,
                self.top_mode() == old(self).top_mode(),
                on == self.diags_on(),
                d0 == old(self).diags(),
                total == cv_list_spec(s, pos0),
                dtotal == cv_list_diags(s, pos0),
                self.diags() + emitted(on, cv_list_diags(s, self.cursor())) == d0 + emitted(
                    on,
                    dtotal,
                ),
                ({
                    let rem = cv_list_spec(s, self.cursor());
                    total.0 == cv_vec_view(values) + rem.0 && total.1 == rem.1
                }),
            ensures
                self.toks() == s,
                pos0 <= self.cursor(),
                self.diags_on() == on,
                self.diags() == d0 + emitted(on, dtotal),
                cv_vec_view(values) == total.0,
                self.cursor() == total.1,
            decreases s.len() - self.cursor(),
        {
            let ghost values_pre = values;
            let ghost pos_pre = self.cursor();
            let ghost diags_pre = self.diags();
            let t = self.peek_next_token();
            if matches!(t, Token::EOF) {
                let _t = self.consume_next_token();
                proof {
                    assert(cv_vec_view(values) + Seq::<ComponentValueView>::empty()
                        =~= cv_vec_view(values));
                    assert(self.diags() + emitted(
                        on,
                        Seq::<ParseDiagnostic>::empty(),
                    ) =~= self.diags());
                }
                break ;
            }
            let cv = self.consume_a_component_value();
            proof {
                use_type_invariant(&*self);
            }
            values.push(cv);
            proof {
                assert(cv_vec_view(values) =~= cv_vec_view(values_pre).push(cv@));
                let rem_pre = cv_list_spec(s, pos_pre);
                let rem_now = cv_list_spec(s, self.cursor());
                assert(cv_vec_view(values_pre) + rem_pre.0 =~= cv_vec_view(values) + rem_now.0);
                let drem_pre = cv_list_diags(s, pos_pre);
                let drem_now = cv_list_diags(s, self.cursor());
                assert(drem_pre == cv_diags(s, pos_pre) + drem_now);
                assert(emitted(on, drem_pre) =~= emitted(on, cv_diags(s, pos_pre)) + emitted(
                    on,
                    drem_now,
                ));
                assert((diags_pre + emitted(on, cv_diags(s, pos_pre))) + emitted(on, drem_now)
                    =~= diags_pre + emitted(on, drem_pre));
            }
        }
        values
    }

    /// Parses groups of component values split on top-level commas; the
    /// group open at EOF is kept, so there is always at least one group.
    pub fn parse_a_comma_separated_list_of_component_values(&mut self) -> (r: Vec<
        Vec<ComponentValue>,
    >)
        ensures
            final(self).toks() == old(self).toks(),
            old(self).cursor() <= final(self).cursor(),
            final(self).diags_on() == old(self).diags_on(),
            final(self).diags() == old(self).diags() + emitted(
                old(self).diags_on(),
                comma_groups_diags(old(self).toks(), old(self).cursor()),
            ),
            ({
                let (groups, p) = comma_groups_spec(old(self).toks(), old(self).cursor());
                cv_groups_view(r) == groups && final(self).cursor() == p
            }),
    {
        proof {
            use_type_invariant(&*self);
        }
        let mut return_values: Vec<Vec<ComponentValue>> = Vec::new();
        let mut values: Vec<ComponentValue> = Vec::new();
        let ghost s = self.toks();
        let ghost pos0 = self.cursor();
        let ghost on = self.diags_on();
        let ghost d0 = self.diags();
        let ghost dtotal = comma_groups_diags(s, pos0);
        let ghost total = comma_groups_spec(s, pos0);
        proof {
            let rem0 = comma_groups_spec(s, pos0);
            assert(seq![cv_vec_view(values) + rem0.0[0]] + rem0.0.skip(1) =~= rem0.0);
            assert(cv_groups_view(return_values) + rem0.0 =~= rem0.0);
        }
        loop
            invariant_except_break
                s == old(self).toks(),
                pos0 <= self.cursor() <= s.len(),
                self.toks() == s,
                self.top_mode() == old(self).top_mode(),
                on == self.diags_on(),
                d0 == old(self).diags(),
                total == comma_groups_spec(s, pos0),
                dtotal == comma_groups_diags(s, pos0),
                self.diags() + emitted(on, comma_groups_diags(s, self.cursor())) == d0 + emitted(
                    on,
                    dtotal,
                ),
                ({
                    let rem = comma_groups_spec(s, self.cursor());
                    rem.0.len() >= 1 ==> total.0 == cv_groups_view(return_values) + (seq![
                        cv_vec_view(values) + rem.0[0],
                    ] + rem.0.skip(1)) && total.1 == rem.1
                }),
            ensures
                self.toks() == s,
                pos0 <= self.cursor(),
                self.diags_on() == on,
                self.diags() == d0 + emitted(on, dtotal),
                cv_groups_view(return_values) == total.0,
                self.cursor() == total.1,
            decreases s.len() - self.cursor(),
        {
            let ghost rv_pre = return_values;
            let ghost values_pre = values;
            let ghost pos_pre = self.cursor();
            let ghost diags_pre = self.diags();
            proof {
                let rem_pre = comma_groups_spec(s, pos_pre);
                assert(rem_pre.0.len() >= 1);
            }
            let t = self.peek_next_token();
            if matches!(t, Token::EOF) {
                let _t = self.consume_next_token();
                return_values.push(values);
                proof {
                    assert(self.diags() + emitted(
                        on,
                        Seq::<ParseDiagnostic>::empty(),
                    ) =~= self.diags());
                    let rem_pre = comma_groups_spec(s, pos_pre);
                    assert(cv_vec_view(values_pre) + Seq::<ComponentValueView>::empty()
                        =~= cv_vec_view(values_pre));
                    assert(seq![cv_vec_view(values_pre) + rem_pre.0[0]] + rem_pre.0.skip(1)
                        =~= seq![cv_vec_view(values_pre)]);
                    assert(cv_groups_view(return_values) =~= cv_groups_view(rv_pre).push(
                        cv_vec_view(values_pre),
                    ));
                    assert(cv_groups_view(rv_pre) + seq![cv_vec_view(values_pre)]
                        =~= cv_groups_view(return_values));
                }
                break ;
            }
            if matches!(t, Token::Comma) {
                let _t = self.consume_next_token();
                return_values.push(values);
                values = Vec::new();
                proof {
                    use_type_invariant(&*self);
                    let rem_pre = comma_groups_spec(s, pos_pre);
                    let rem_now = comma_groups_spec(s, self.cursor());
                    assert(rem_now.0.len() >= 1);
                    assert(rem_pre.0 =~= seq![Seq::<ComponentValueView>::empty()] + rem_now.0);
                    assert(cv_vec_view(values_pre) + Seq::<ComponentValueView>::empty()
                        =~= cv_vec_view(values_pre));
                    assert(cv_groups_view(return_values) =~= cv_groups_view(rv_pre).push(
                        cv_vec_view(values_pre),
                    ));
                    assert(seq![cv_vec_view(values_pre) + rem_pre.0[0]] + rem_pre.0.skip(1)
                        =~= seq![cv_vec_view(values_pre)] + (seq![
                            cv_vec_view(values) + rem_now.0[0],
                        ] + rem_now.0.skip(1)));
                    assert(cv_groups_view(rv_pre) + (seq![cv_vec_view(values_pre) + rem_pre.0[0]]
                        + rem_pre.0.skip(1)) =~= cv_groups_view(return_values) + (seq![
                        cv_vec_view(values) + rem_now.0[0],
                    ] + rem_now.0.skip(1)));
                }
                continue ;
            }
            let cv = self.consume_a_component_value();
            proof {
                use_type_invariant(&*self);
            }
            values.push(cv);
            proof {
                let rem_pre = comma_groups_spec(s, pos_pre);
                let rem_now = comma_groups_spec(s, self.cursor());
                assert(rem_now.0.len() >= 1);
                assert(rem_pre.0 =~= seq![seq![cv@] + rem_now.0[0]] + rem_now.0.skip(1));
                assert(cv_vec_view(values) =~= cv_vec_view(values_pre).push(cv@));
                assert(cv_vec_view(values_pre) + rem_pre.0[0] =~= cv_vec_view(values)
                    + rem_now.0[0]);
                assert(seq![cv_vec_view(values_pre) + rem_pre.0[0]] + rem_pre.0.skip(1)
                    =~= seq![cv_vec_view(values) + rem_now.0[0]] + rem_now.0.skip(1));
                let drem_pre = comma_groups_diags(s, pos_pre);
                let drem_now = comma_groups_diags(s, self.cursor());
                assert(drem_pre == cv_diags(s, pos_pre) + drem_now);
                assert(emitted(on, drem_pre) =~= emitted(on, cv_diags(s, pos_pre)) + emitted(
                    on,
                    drem_now,
                ));
                assert((diags_pre + emitted(on, cv_diags(s, pos_pre))) + emitted(on, drem_now)
                    =~= diags_pre + emitted(on, drem_pre));
            }
        }
        return_values
    }
}

} // verus!

//! Mathematical model of the CSS parser: recursive functions over the token
//! sequence that say, for every entry point, exactly what is produced and how
//! far the cursor moves.
//!
//! Each function takes the whole token sequence and a cursor, and returns the
//! parsed structure together with the cursor after the parse. Where a function
//! continues at the cursor returned by an inner parse, that cursor is bounded
//! below by `pos + 1` and above by the sequence length in the definition
//! itself (`bounded_pos`), so the recursion visibly terminates; the exec
//! parser proves that the bound never actually clips.

use vstd::prelude::*;

use crate::token::TokenView;
use crate::cssom::{
    AtRuleView, ComponentValueView, DeclarationOrAtRuleView, DeclarationView, FunctionView,
    ParseDiagnostic, QualifiedRuleView, RuleView, SimpleBlockView,
};

verus! {

/// The token at a cursor; past the end the stream reads as an endless EOF.
pub open spec fn tok_at(s: Seq<TokenView>, pos: int) -> TokenView {
    if 0 <= pos < s.len() {
        s[pos]
    } else {
        TokenView::EOF
    }
}

/// Cursor after consuming one token: it never moves past the end.
pub open spec fn next_pos(s: Seq<TokenView>, pos: int) -> int {
    if 0 <= pos < s.len() {
        pos + 1
    } else {
        pos
    }
}

/// Clips a continuation cursor into `[lo, hi]`.
pub open spec fn bounded_pos(p: int, lo: int, hi: int) -> int {
    if p < lo {
        lo
    } else if p > hi {
        hi
    } else {
        p
    }
}

/// Whether a token opens a simple block.
pub open spec fn is_block_open(t: TokenView) -> bool {
    t is BraceOpen || t is BracketOpen || t is ParentheseOpen
}

/// The close token paired with a block-open token.
pub open spec fn close_of(t: TokenView) -> TokenView {
    match t {
        TokenView::BraceOpen => TokenView::BraceClose,
        TokenView::BracketOpen => TokenView::BracketClose,
        _ => TokenView::ParentheseClose,
    }
}

/// One component value at the cursor: a block-open token starts a simple
/// block, a function token starts a function, any other token (EOF included)
/// is preserved as-is.
pub open spec fn cv_spec(s: Seq<TokenView>, pos: int) -> (ComponentValueView, int)
    decreases s.len() - pos, 0int,
{
    let t = tok_at(s, pos);
    if is_block_open(t) {
        let (items, p) = block_items_spec(s, pos + 1, close_of(t));
        (ComponentValueView::SimpleBlock(SimpleBlockView { token: t, value: items }), p)
    } else if t is Function {
        let (items, p) = block_items_spec(s, pos + 1, TokenView::ParentheseClose);
        (
            ComponentValueView::Function(FunctionView { name: t->Function_0, value: items }),
            p,
        )
    } else {
        (ComponentValueView::PerservedToken(t), next_pos(s, pos))
    }
}

/// The component values of a block or function body: everything up to the
/// matching close token (consumed) or EOF (an unterminated block is accepted
/// as-is up to EOF).
pub open spec fn block_items_spec(s: Seq<TokenView>, pos: int, close: TokenView) -> (
    Seq<ComponentValueView>,
    int,
)
    decreases s.len() - pos, 1int,
{
    let t = tok_at(s, pos);
    if t == close {
        (Seq::<ComponentValueView>::empty(), next_pos(s, pos))
    } else if t is EOF {
        (Seq::<ComponentValueView>::empty(), pos)
    } else {
        let (cv, p1) = cv_spec(s, pos);
        let (rest, p2) = block_items_spec(s, bounded_pos(p1, pos + 1, s.len() as int), close);
        (seq![cv] + rest, p2)
    }
}

/// Cursor after consuming every token equal to `t` at the cursor.
pub open spec fn consume_while_spec(s: Seq<TokenView>, pos: int, t: TokenView) -> int
    decreases s.len() - pos, 0int,
{
    if 0 <= pos < s.len() && s[pos] == t {
        consume_while_spec(s, pos + 1, t)
    } else {
        pos
    }
}

/// A qualified rule at the cursor: component values fill the prelude until a
/// brace opens the block; a rule unterminated at EOF is accepted as-is, with
/// the prelude collected so far and no block.
pub open spec fn qualified_rule_spec(s: Seq<TokenView>, pos: int) -> (QualifiedRuleView, int)
    decreases s.len() - pos, 1int,
{
    let t = tok_at(s, pos);
    if t is EOF {
        (QualifiedRuleView { prelude: Seq::empty(), block: None }, pos)
    } else if t is BraceOpen {
        let (items, p) = block_items_spec(s, pos + 1, TokenView::BraceClose);
        (
            QualifiedRuleView {
                prelude: Seq::empty(),
                block: Some(SimpleBlockView { token: TokenView::BraceOpen, value: items }),
            },
            p,
        )
    } else {
        let (cv, p1) = cv_spec(s, pos);
        let (qr, p2) = qualified_rule_spec(s, bounded_pos(p1, pos + 1, s.len() as int));
        (QualifiedRuleView { prelude: seq![cv] + qr.prelude, ..qr }, p2)
    }
}

/// The prelude and optional block of an at-rule, after its name: a semicolon
/// or EOF ends a block-less rule, a brace opens the block.
pub open spec fn at_rule_tail_spec(s: Seq<TokenView>, pos: int) -> (
    (Seq<ComponentValueView>, Option<SimpleBlockView>),
    int,
)
    decreases s.len() - pos, 1int,
{
    let t = tok_at(s, pos);
    if t is Semicolon {
        ((Seq::empty(), None), next_pos(s, pos))
    } else if t is EOF {
        ((Seq::empty(), None), pos)
    } else if t is BraceOpen {
        let (items, p) = block_items_spec(s, pos + 1, TokenView::BraceClose);
        (
            ((Seq::empty(), Some(SimpleBlockView { token: TokenView::BraceOpen, value: items }))),
            p,
        )
    } else {
        let (cv, p1) = cv_spec(s, pos);
        let ((prelude, block), p2) = at_rule_tail_spec(
            s,
            bounded_pos(p1, pos + 1, s.len() as int),
        );
        ((seq![cv] + prelude, block), p2)
    }
}

/// An at-rule at the cursor, which must hold an at-keyword token.
pub open spec fn at_rule_spec(s: Seq<TokenView>, pos: int) -> (AtRuleView, int) {
    let name = tok_at(s, pos)->AtKeyword_0;
    let ((prelude, block), p) = at_rule_tail_spec(s, next_pos(s, pos));
    (AtRuleView { name, prelude, block }, p)
}

/// A list of rules: whitespace is skipped, EOF ends the list, CDO/CDC markers
/// are discarded in top-level mode and start a qualified rule otherwise, an
/// at-keyword starts an at-rule, anything else starts a qualified rule.
pub open spec fn rules_spec(s: Seq<TokenView>, pos: int, top: bool) -> (Seq<RuleView>, int)
    decreases s.len() - pos, 2int,
{
    let t = tok_at(s, pos);
    if t is EOF {
        (Seq::<RuleView>::empty(), pos)
    } else if t is Whitespace {
        rules_spec(s, pos + 1, top)
    } else if (t is CDO || t is CDC) && top {
        rules_spec(s, pos + 1, top)
    } else if t is AtKeyword {
        let (a, p1) = at_rule_spec(s, pos);
        let (rest, p2) = rules_spec(s, bounded_pos(p1, pos + 1, s.len() as int), top);
        (seq![RuleView::AtRule(a)] + rest, p2)
    } else {
        let (q, p1) = qualified_rule_spec(s, pos);
        let (rest, p2) = rules_spec(s, bounded_pos(p1, pos + 1, s.len() as int), top);
        (seq![RuleView::QualifiedRule(q)] + rest, p2)
    }
}

/// Whether a component value is a preserved whitespace token.
pub open spec fn is_ws_cv(cv: ComponentValueView) -> bool {
    cv == ComponentValueView::PerservedToken(TokenView::Whitespace)
}

/// A value run with its trailing whitespace stripped.
pub open spec fn trim_ws_suffix(vals: Seq<ComponentValueView>) -> Seq<ComponentValueView>
    decreases vals.len(),
{
    if vals.len() > 0 && is_ws_cv(vals.last()) {
        trim_ws_suffix(vals.drop_last())
    } else {
        vals
    }
}

/// ASCII case-insensitive match against `important`.
pub open spec fn is_important_ident(name: Seq<char>) -> bool {
    &&& name.len() == 9
    &&& (name[0] == 'i' || name[0] == 'I')
    &&& (name[1] == 'm' || name[1] == 'M')
    &&& (name[2] == 'p' || name[2] == 'P')
    &&& (name[3] == 'o' || name[3] == 'O')
    &&& (name[4] == 'r' || name[4] == 'R')
    &&& (name[5] == 't' || name[5] == 'T')
    &&& (name[6] == 'a' || name[6] == 'A')
    &&& (name[7] == 'n' || name[7] == 'N')
    &&& (name[8] == 't' || name[8] == 'T')
}

/// Whether a trimmed value run ends in an `!important` pair: the last
/// non-whitespace value is a case-insensitive `important` ident and the one
/// before it is a `!` delimiter.
pub open spec fn has_important_suffix(vals: Seq<ComponentValueView>) -> bool {
    let t1 = trim_ws_suffix(vals);
    &&& t1.len() > 0
    &&& match t1.last() {
        ComponentValueView::PerservedToken(TokenView::Ident(name)) => is_important_ident(name),
        _ => false,
    }
    &&& {
        let t2 = trim_ws_suffix(t1.drop_last());
        t2.len() > 0 && t2.last() == ComponentValueView::PerservedToken(TokenView::Delim('!'))
    }
}

/// A finished declaration: the `!important` pair (detected once, scanning
/// from the end past whitespace) is removed and the flag set, and trailing
/// whitespace is always stripped from the value.
pub open spec fn finalize_declaration_spec(
    name: Seq<char>,
    vals: Seq<ComponentValueView>,
) -> DeclarationView {
    if has_important_suffix(vals) {
        let t1 = trim_ws_suffix(vals);
        let t2 = trim_ws_suffix(t1.drop_last());
        DeclarationView { name, value: trim_ws_suffix(t2.drop_last()), important: true }
    } else {
        DeclarationView { name, value: trim_ws_suffix(vals), important: false }
    }
}

/// Index of the first non-whitespace component value at or after `i`.
pub open spec fn skip_ws_cvs(cvs: Seq<ComponentValueView>, i: int) -> int
    decreases cvs.len() - i,
{
    if 0 <= i < cvs.len() && is_ws_cv(cvs[i]) {
        skip_ws_cvs(cvs, i + 1)
    } else {
        i
    }
}

/// A declaration read from an already-parsed run of component values: the
/// run must open with an ident (the name), then optional whitespace, then a
/// colon; without the colon there is no declaration. Everything after the
/// colon and its following whitespace is the value, finished by
/// `finalize_declaration_spec`.
pub open spec fn declaration_from_cvs_spec(cvs: Seq<ComponentValueView>) -> Option<
    DeclarationView,
> {
    if cvs.len() > 0 && cvs[0] matches ComponentValueView::PerservedToken(TokenView::Ident(_)) {
        let name = cvs[0]->PerservedToken_0->Ident_0;
        let i = skip_ws_cvs(cvs, 1);
        if i < cvs.len() && cvs[i] == ComponentValueView::PerservedToken(TokenView::Colon) {
            let j = skip_ws_cvs(cvs, i + 1);
            Some(finalize_declaration_spec(name, cvs.skip(j)))
        } else {
            None
        }
    } else {
        None
    }
}

/// Component values up to (not consuming) a top-level semicolon or EOF.
pub open spec fn cvs_until_semi_spec(s: Seq<TokenView>, pos: int) -> (
    Seq<ComponentValueView>,
    int,
)
    decreases s.len() - pos, 1int,
{
    let t = tok_at(s, pos);
    if t is Semicolon || t is EOF {
        (Seq::<ComponentValueView>::empty(), pos)
    } else {
        let (cv, p1) = cv_spec(s, pos);
        let (rest, p2) = cvs_until_semi_spec(s, bounded_pos(p1, pos + 1, s.len() as int));
        (seq![cv] + rest, p2)
    }
}

/// Component values up to EOF (not consuming it).
pub open spec fn cvs_until_eof_spec(s: Seq<TokenView>, pos: int) -> (
    Seq<ComponentValueView>,
    int,
)
    decreases s.len() - pos, 1int,
{
    let t = tok_at(s, pos);
    if t is EOF {
        (Seq::<ComponentValueView>::empty(), pos)
    } else {
        let (cv, p1) = cv_spec(s, pos);
        let (rest, p2) = cvs_until_eof_spec(s, bounded_pos(p1, pos + 1, s.len() as int));
        (seq![cv] + rest, p2)
    }
}

/// A declaration read from the token stream itself: the cursor must hold the
/// name ident; after optional whitespace a colon must follow, else there is
/// no declaration; the value runs to EOF.
pub open spec fn declaration_spec(s: Seq<TokenView>, pos: int) -> (Option<DeclarationView>, int) {
    let name = tok_at(s, pos)->Ident_0;
    let p1 = consume_while_spec(s, next_pos(s, pos), TokenView::Whitespace);
    if tok_at(s, p1) is Colon {
        let p2 = consume_while_spec(s, next_pos(s, p1), TokenView::Whitespace);
        let (vals, p3) = cvs_until_eof_spec(s, p2);
        (Some(finalize_declaration_spec(name, vals)), p3)
    } else {
        (None, p1)
    }
}

/// A declaration list: whitespace and stray semicolons are skipped, EOF ends
/// the list, an at-keyword contributes a nested at-rule, an ident opens a
/// `;`-delimited segment read as one declaration (contributing nothing if the
/// colon-presence check fails), and any other token is an error segment whose
/// tokens are discarded up to the next semicolon or EOF.
pub open spec fn declaration_list_spec(s: Seq<TokenView>, pos: int) -> (
    Seq<DeclarationOrAtRuleView>,
    int,
)
    decreases s.len() - pos, 2int,
{
    let t = tok_at(s, pos);
    if t is EOF {
        (Seq::<DeclarationOrAtRuleView>::empty(), pos)
    } else if t is Whitespace || t is Semicolon {
        declaration_list_spec(s, pos + 1, )
    } else if t is AtKeyword {
        let (a, p1) = at_rule_spec(s, pos);
        let (rest, p2) = declaration_list_spec(s, bounded_pos(p1, pos + 1, s.len() as int));
        (seq![DeclarationOrAtRuleView::AtRule(a)] + rest, p2)
    } else if t is Ident {
        let (vals, p1) = cvs_until_semi_spec(s, pos + 1);
        let cvs = seq![ComponentValueView::PerservedToken(t)] + vals;
        let (rest, p2) = declaration_list_spec(s, bounded_pos(p1, pos + 1, s.len() as int));
        (
            match declaration_from_cvs_spec(cvs) {
                Some(d) => seq![DeclarationOrAtRuleView::Declaration(d)] + rest,
                None => rest,
            },
            p2,
        )
    } else {
        let (discarded, p1) = cvs_until_semi_spec(s, pos);
        declaration_list_spec(s, bounded_pos(p1, pos + 1, s.len() as int))
    }
}

/// A whole-input rule: after skipping surrounding whitespace the input must
/// be exactly one rule; EOF up front or trailing tokens mean a syntax error
/// (`None`). A rule unterminated at EOF is still the one rule.
pub open spec fn rule_entry_spec(s: Seq<TokenView>, pos: int) -> (Option<RuleView>, int) {
    let p0 = consume_while_spec(s, pos, TokenView::Whitespace);
    let t = tok_at(s, p0);
    if t is EOF {
        (None, p0)
    } else {
        let (rule, p1): (RuleView, int) = if t is AtKeyword {
            let (a, p) = at_rule_spec(s, p0);
            (RuleView::AtRule(a), p)
        } else {
            let (q, p) = qualified_rule_spec(s, p0);
            (RuleView::QualifiedRule(q), p)
        };
        let p2 = consume_while_spec(s, p1, TokenView::Whitespace);
        if tok_at(s, p2) is EOF {
            (Some(rule), p2)
        } else {
            (None, p2)
        }
    }
}

/// A whole-input declaration: the first non-whitespace token must be an
/// ident, and the declaration's own colon-presence check must pass.
pub open spec fn declaration_entry_spec(s: Seq<TokenView>, pos: int) -> (
    Option<DeclarationView>,
    int,
)
{
    let p0 = consume_while_spec(s, pos, TokenView::Whitespace);
    if tok_at(s, p0) is Ident {
        declaration_spec(s, p0)
    } else {
        (None, p0)
    }
}

/// A whole-input component value: exactly one value between optional
/// whitespace; EOF up front or trailing tokens mean a syntax error.
pub open spec fn cv_entry_spec(s: Seq<TokenView>, pos: int) -> (Option<ComponentValueView>, int) {
    let p0 = consume_while_spec(s, pos, TokenView::Whitespace);
    if tok_at(s, p0) is EOF {
        (None, p0)
    } else {
        let (cv, p1) = cv_spec(s, p0);
        let p2 = consume_while_spec(s, p1, TokenView::Whitespace);
        if tok_at(s, p2) is EOF {
            (Some(cv), p2)
        } else {
            (None, p2)
        }
    }
}

/// A list of component values consumed until EOF; the EOF itself is not kept.
pub open spec fn cv_list_spec(s: Seq<TokenView>, pos: int) -> (Seq<ComponentValueView>, int)
    decreases s.len() - pos, 1int,
{
    let (cv, p1) = cv_spec(s, pos);
    if cv == ComponentValueView::PerservedToken(TokenView::EOF) {
        (Seq::<ComponentValueView>::empty(), p1)
    } else {
        let (rest, p2) = cv_list_spec(s, bounded_pos(p1, pos + 1, s.len() as int));
        (seq![cv] + rest, p2)
    }
}

/// Groups of component values split on top-level commas (commas inside
/// nested blocks or functions do not split); the group open at EOF is kept,
/// so there is always at least one group.
pub open spec fn comma_groups_spec(s: Seq<TokenView>, pos: int) -> (
    Seq<Seq<ComponentValueView>>,
    int,
)
    decreases s.len() - pos, 1int,
{
    let (cv, p1) = cv_spec(s, pos);
    if cv == ComponentValueView::PerservedToken(TokenView::EOF) {
        (seq![Seq::<ComponentValueView>::empty()], p1)
    } else if cv == ComponentValueView::PerservedToken(TokenView::Comma) {
        let (groups, p2) = comma_groups_spec(s, bounded_pos(p1, pos + 1, s.len() as int));
        (seq![Seq::<ComponentValueView>::empty()] + groups, p2)
    } else {
        let (groups, p2) = comma_groups_spec(s, bounded_pos(p1, pos + 1, s.len() as int));
        (seq![seq![cv] + groups[0]] + groups.skip(1), p2)
    }
}


/// What a diagnostic sink receives: the events when the toggle is on,
/// nothing when it is off. The toggle gates emission, never the parse.
pub open spec fn emitted(on: bool, diags: Seq<ParseDiagnostic>) -> Seq<ParseDiagnostic> {
    if on {
        diags
    } else {
        Seq::empty()
    }
}

/// The diagnostics of consuming one component value at the cursor: only an
/// unterminated nested block or function surfaces anything.
pub open spec fn cv_diags(s: Seq<TokenView>, pos: int) -> Seq<ParseDiagnostic>
    decreases s.len() - pos, 0int,
{
    let t = tok_at(s, pos);
    if is_block_open(t) {
        block_items_diags(s, pos + 1, close_of(t), ParseDiagnostic::UnexpectedEofInSimpleBlock)
    } else if t is Function {
        block_items_diags(
            s,
            pos + 1,
            TokenView::ParentheseClose,
            ParseDiagnostic::UnexpectedEofInFunction,
        )
    } else {
        Seq::empty()
    }
}

/// The diagnostics of a block or function body: EOF before the close token
/// surfaces the body's own unterminated-construct diagnostic, after those
/// of its nested values.
pub open spec fn block_items_diags(
    s: Seq<TokenView>,
    pos: int,
    close: TokenView,
    on_eof: ParseDiagnostic,
) -> Seq<ParseDiagnostic>
    decreases s.len() - pos, 1int,
{
    let t = tok_at(s, pos);
    if t == close {
        Seq::empty()
    } else if t is EOF {
        seq![on_eof]
    } else {
        let (cv, p1) = cv_spec(s, pos);
        cv_diags(s, pos) + block_items_diags(
            s,
            bounded_pos(p1, pos + 1, s.len() as int),
            close,
            on_eof,
        )
    }
}

/// The diagnostics of a qualified rule: EOF before its block surfaces the
/// unterminated-rule diagnostic, after those of the prelude values.
pub open spec fn qualified_rule_diags(s: Seq<TokenView>, pos: int) -> Seq<ParseDiagnostic>
    decreases s.len() - pos, 1int,
{
    let t = tok_at(s, pos);
    if t is EOF {
        seq![ParseDiagnostic::UnexpectedEofInQualifiedRule]
    } else if t is BraceOpen {
        block_items_diags(
            s,
            pos + 1,
            TokenView::BraceClose,
            ParseDiagnostic::UnexpectedEofInSimpleBlock,
        )
    } else {
        let (cv, p1) = cv_spec(s, pos);
        cv_diags(s, pos) + qualified_rule_diags(s, bounded_pos(p1, pos + 1, s.len() as int))
    }
}

/// The diagnostics of an at-rule's prelude and block, after its name.
pub open spec fn at_rule_tail_diags(s: Seq<TokenView>, pos: int) -> Seq<ParseDiagnostic>
    decreases s.len() - pos, 1int,
{
    let t = tok_at(s, pos);
    if t is Semicolon {
        Seq::empty()
    } else if t is EOF {
        seq![ParseDiagnostic::UnexpectedEofInAtRule]
    } else if t is BraceOpen {
        block_items_diags(
            s,
            pos + 1,
            TokenView::BraceClose,
            ParseDiagnostic::UnexpectedEofInSimpleBlock,
        )
    } else {
        let (cv, p1) = cv_spec(s, pos);
        cv_diags(s, pos) + at_rule_tail_diags(s, bounded_pos(p1, pos + 1, s.len() as int))
    }
}

/// The diagnostics of an at-rule at the cursor.
pub open spec fn at_rule_diags(s: Seq<TokenView>, pos: int) -> Seq<ParseDiagnostic> {
    at_rule_tail_diags(s, next_pos(s, pos))
}

/// The diagnostics of a list of rules.
pub open spec fn rules_diags(s: Seq<TokenView>, pos: int, top: bool) -> Seq<ParseDiagnostic>
    decreases s.len() - pos, 2int,
{
    let t = tok_at(s, pos);
    if t is EOF {
        Seq::empty()
    } else if t is Whitespace {
        rules_diags(s, pos + 1, top)
    } else if (t is CDO || t is CDC) && top {
        rules_diags(s, pos + 1, top)
    } else if t is AtKeyword {
        let (a, p1) = at_rule_spec(s, pos);
        at_rule_diags(s, pos) + rules_diags(s, bounded_pos(p1, pos + 1, s.len() as int), top)
    } else {
        let (q, p1) = qualified_rule_spec(s, pos);
        qualified_rule_diags(s, pos) + rules_diags(
            s,
            bounded_pos(p1, pos + 1, s.len() as int),
            top,
        )
    }
}

/// The diagnostics of the values before a top-level semicolon or EOF.
pub open spec fn cvs_until_semi_diags(s: Seq<TokenView>, pos: int) -> Seq<ParseDiagnostic>
    decreases s.len() - pos, 1int,
{
    let t = tok_at(s, pos);
    if t is Semicolon || t is EOF {
        Seq::empty()
    } else {
        let (cv, p1) = cv_spec(s, pos);
        cv_diags(s, pos) + cvs_until_semi_diags(s, bounded_pos(p1, pos + 1, s.len() as int))
    }
}

/// The diagnostics of the values before EOF.
pub open spec fn cvs_until_eof_diags(s: Seq<TokenView>, pos: int) -> Seq<ParseDiagnostic>
    decreases s.len() - pos, 1int,
{
    let t = tok_at(s, pos);
    if t is EOF {
        Seq::empty()
    } else {
        let (cv, p1) = cv_spec(s, pos);
        cv_diags(s, pos) + cvs_until_eof_diags(s, bounded_pos(p1, pos + 1, s.len() as int))
    }
}

/// The diagnostics of a declaration read from the stream: a failed
/// colon-presence check surfaces one diagnostic; otherwise those of the
/// value run.
pub open spec fn declaration_diags(s: Seq<TokenView>, pos: int) -> Seq<ParseDiagnostic> {
    let p1 = consume_while_spec(s, next_pos(s, pos), TokenView::Whitespace);
    if tok_at(s, p1) is Colon {
        let p2 = consume_while_spec(s, next_pos(s, p1), TokenView::Whitespace);
        cvs_until_eof_diags(s, p2)
    } else {
        seq![ParseDiagnostic::MissingColonInDeclaration]
    }
}

/// The diagnostics of a declaration list: a segment whose colon-presence
/// check fails, and an unexpected token opening an error segment, each
/// surface one diagnostic beside those of the values consumed.
pub open spec fn declaration_list_diags(s: Seq<TokenView>, pos: int) -> Seq<ParseDiagnostic>
    decreases s.len() - pos, 2int,
{
    let t = tok_at(s, pos);
    if t is EOF {
        Seq::empty()
    } else if t is Whitespace || t is Semicolon {
        declaration_list_diags(s, pos + 1)
    } else if t is AtKeyword {
        let (a, p1) = at_rule_spec(s, pos);
        at_rule_diags(s, pos) + declaration_list_diags(
            s,
            bounded_pos(p1, pos + 1, s.len() as int),
        )
    } else if t is Ident {
        let (vals, p1) = cvs_until_semi_spec(s, pos + 1);
        let cvs = seq![ComponentValueView::PerservedToken(t)] + vals;
        let own = if declaration_from_cvs_spec(cvs) is None {
            seq![ParseDiagnostic::MissingColonInDeclaration]
        } else {
            Seq::<ParseDiagnostic>::empty()
        };
        cvs_until_semi_diags(s, pos + 1) + own + declaration_list_diags(
            s,
            bounded_pos(p1, pos + 1, s.len() as int),
        )
    } else {
        let (discarded, p1) = cvs_until_semi_spec(s, pos);
        seq![ParseDiagnostic::UnexpectedTokenInDeclarationList] + cvs_until_semi_diags(s, pos)
            + declaration_list_diags(s, bounded_pos(p1, pos + 1, s.len() as int))
    }
}

/// The diagnostics of the whole-input rule entry point; a syntax error is
/// an error result, not a tolerated malformation, and surfaces nothing of
/// its own.
pub open spec fn rule_entry_diags(s: Seq<TokenView>, pos: int) -> Seq<ParseDiagnostic> {
    let p0 = consume_while_spec(s, pos, TokenView::Whitespace);
    let t = tok_at(s, p0);
    if t is EOF {
        Seq::empty()
    } else if t is AtKeyword {
        at_rule_diags(s, p0)
    } else {
        qualified_rule_diags(s, p0)
    }
}

/// The diagnostics of the whole-input declaration entry point.
pub open spec fn declaration_entry_diags(s: Seq<TokenView>, pos: int) -> Seq<ParseDiagnostic> {
    let p0 = consume_while_spec(s, pos, TokenView::Whitespace);
    if tok_at(s, p0) is Ident {
        declaration_diags(s, p0)
    } else {
        Seq::empty()
    }
}

/// The diagnostics of the whole-input component-value entry point.
pub open spec fn cv_entry_diags(s: Seq<TokenView>, pos: int) -> Seq<ParseDiagnostic> {
    let p0 = consume_while_spec(s, pos, TokenView::Whitespace);
    if tok_at(s, p0) is EOF {
        Seq::empty()
    } else {
        cv_diags(s, p0)
    }
}

/// The diagnostics of a component-value list consumed until EOF.
pub open spec fn cv_list_diags(s: Seq<TokenView>, pos: int) -> Seq<ParseDiagnostic>
    decreases s.len() - pos, 1int,
{
    let (cv, p1) = cv_spec(s, pos);
    if cv == ComponentValueView::PerservedToken(TokenView::EOF) {
        Seq::empty()
    } else {
        cv_diags(s, pos) + cv_list_diags(s, bounded_pos(p1, pos + 1, s.len() as int))
    }
}

/// The diagnostics of the comma-separated groups entry point.
pub open spec fn comma_groups_diags(s: Seq<TokenView>, pos: int) -> Seq<ParseDiagnostic>
    decreases s.len() - pos, 1int,
{
    let (cv, p1) = cv_spec(s, pos);
    if cv == ComponentValueView::PerservedToken(TokenView::EOF) {
        Seq::empty()
    } else if cv == ComponentValueView::PerservedToken(TokenView::Comma) {
        comma_groups_diags(s, bounded_pos(p1, pos + 1, s.len() as int))
    } else {
        cv_diags(s, pos) + comma_groups_diags(s, bounded_pos(p1, pos + 1, s.len() as int))
    }
}

} // verus!

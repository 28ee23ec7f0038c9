//! CSS object-model nodes produced by the parser: component values, simple
//! blocks, functions, rules and declarations, with their mathematical models.

use vstd::prelude::*;

use crate::token::{Token, TokenView};

verus! {

broadcast use vstd::std_specs::vec::axiom_vec_index_decreases;

/// Returned by a parser entry point when the input does not conform to the
/// entry point's exact grammar.
#[derive(Debug, PartialEq)]
pub struct SyntaxError;

/// One diagnostic surfaced while tolerating a malformed or unterminated
/// construct; the construct itself is still handled, never aborted over.
#[derive(Clone, Copy, Debug, PartialEq, Eq, Structural)]
pub enum ParseDiagnostic {
    UnexpectedEofInSimpleBlock,
    UnexpectedEofInFunction,
    UnexpectedEofInQualifiedRule,
    UnexpectedEofInAtRule,
    MissingColonInDeclaration,
    UnexpectedTokenInDeclarationList,
}

/// One grammatical unit of CSS syntax: a preserved token, a function, or a
/// simple block.
#[derive(Debug, PartialEq)]
pub enum ComponentValue {
    PerservedToken(Token),
    Function(Function),
    SimpleBlock(SimpleBlock),
}

/// A bracketed, braced or parenthesized run of component values, tagged with
/// its opening token. The opening token determines the matching close token;
/// that pairing is fixed at construction and never re-derived.
#[derive(Debug, PartialEq)]
pub struct SimpleBlock {
    pub token: Token,
    pub value: Vec<ComponentValue>,
}

/// A function token followed by its arguments, up to the matching close paren.
#[derive(Debug, PartialEq)]
pub struct Function {
    pub name: String,
    pub value: Vec<ComponentValue>,
}

/// A prelude (selector-like token run) plus an optional brace-delimited block.
#[derive(Debug, PartialEq)]
pub struct QualifiedRule {
    pub prelude: Vec<ComponentValue>,
    pub block: Option<SimpleBlock>,
}

/// A `@`-introduced rule with a name, prelude, and optional block.
#[derive(Debug, PartialEq)]
pub struct AtRule {
    pub name: String,
    pub prelude: Vec<ComponentValue>,
    pub block: Option<SimpleBlock>,
}

/// A property declaration: name, value run, and the `!important` flag.
#[derive(Debug, PartialEq)]
pub struct Declaration {
    pub name: String,
    pub value: Vec<ComponentValue>,
    pub important: bool,
}

/// Either kind of rule in a rule list.
#[derive(Debug, PartialEq)]
pub enum Rule {
    QualifiedRule(QualifiedRule),
    AtRule(AtRule),
}

pub type ListOfRules = Vec<Rule>;

/// An entry of a declaration-list context: rule bodies may hold nested
/// at-rules between declarations.
#[derive(Debug, PartialEq)]
pub enum DeclarationOrAtRule {
    Declaration(Declaration),
    AtRule(AtRule),
}

/// A stylesheet as parsed: the bare list of rules.
#[derive(Debug, PartialEq)]
pub struct StyleSheet {
    pub rules: ListOfRules,
}

/// Model of a component value; nested runs become sequences.
pub enum ComponentValueView {
    PerservedToken(TokenView),
    Function(FunctionView),
    SimpleBlock(SimpleBlockView),
}

pub struct SimpleBlockView {
    pub token: TokenView,
    pub value: Seq<ComponentValueView>,
}

pub struct FunctionView {
    pub name: Seq<char>,
    pub value: Seq<ComponentValueView>,
}

pub struct QualifiedRuleView {
    pub prelude: Seq<ComponentValueView>,
    pub block: Option<SimpleBlockView>,
}

pub struct AtRuleView {
    pub name: Seq<char>,
    pub prelude: Seq<ComponentValueView>,
    pub block: Option<SimpleBlockView>,
}

pub struct DeclarationView {
    pub name: Seq<char>,
    pub value: Seq<ComponentValueView>,
    pub important: bool,
}

pub enum RuleView {
    QualifiedRule(QualifiedRuleView),
    AtRule(AtRuleView),
}

pub enum DeclarationOrAtRuleView {
    Declaration(DeclarationView),
    AtRule(AtRuleView),
}

pub struct StyleSheetView {
    pub rules: Seq<RuleView>,
}

pub open spec fn cv_view(cv: ComponentValue) -> ComponentValueView
    decreases cv,
{
    match cv {
        ComponentValue::PerservedToken(t) => ComponentValueView::PerservedToken(t@),
        ComponentValue::Function(f) => ComponentValueView::Function(
            FunctionView { name: f.name@, value: cv_vec_view(f.value) },
        ),
        ComponentValue::SimpleBlock(b) => ComponentValueView::SimpleBlock(
            SimpleBlockView { token: b.token@, value: cv_vec_view(b.value) },
        ),
    }
}

/// The out-of-range guard keeps the closure total so the recursion visibly
/// terminates; indices past the length are never read.
pub open spec fn cv_vec_view(cvs: Vec<ComponentValue>) -> Seq<ComponentValueView>
    decreases cvs,
{
    Seq::new(
        cvs@.len(),
        |i: int|
            if 0 <= i < cvs@.len() {
                cv_view(cvs[i])
            } else {
                ComponentValueView::PerservedToken(TokenView::EOF)
            },
    )
}

/// Model of a list of comma-separated groups of component values.
pub open spec fn cv_groups_view(groups: Vec<Vec<ComponentValue>>) -> Seq<Seq<ComponentValueView>> {
    Seq::new(groups@.len(), |i: int| cv_vec_view(groups[i]))
}

impl View for ComponentValue {
    type V = ComponentValueView;

    open spec fn view(&self) -> ComponentValueView {
        cv_view(*self)
    }
}

impl View for SimpleBlock {
    type V = SimpleBlockView;

    open spec fn view(&self) -> SimpleBlockView {
        SimpleBlockView { token: self.token@, value: cv_vec_view(self.value) }
    }
}

impl View for Function {
    type V = FunctionView;

    open spec fn view(&self) -> FunctionView {
        FunctionView { name: self.name@, value: cv_vec_view(self.value) }
    }
}

impl View for QualifiedRule {
    type V = QualifiedRuleView;

    open spec fn view(&self) -> QualifiedRuleView {
        QualifiedRuleView {
            prelude: cv_vec_view(self.prelude),
            block: match self.block {
                Some(b) => Some(b@),
                None => None,
            },
        }
    }
}

impl View for AtRule {
    type V = AtRuleView;

    open spec fn view(&self) -> AtRuleView {
        AtRuleView {
            name: self.name@,
            prelude: cv_vec_view(self.prelude),
            block: match self.block {
                Some(b) => Some(b@),
                None => None,
            },
        }
    }
}

impl View for Declaration {
    type V = DeclarationView;

    open spec fn view(&self) -> DeclarationView {
        DeclarationView {
            name: self.name@,
            value: cv_vec_view(self.value),
            important: self.important,
        }
    }
}

impl View for Rule {
    type V = RuleView;

    open spec fn view(&self) -> RuleView {
        match self {
            Rule::QualifiedRule(q) => RuleView::QualifiedRule(q@),
            Rule::AtRule(a) => RuleView::AtRule(a@),
        }
    }
}

impl View for DeclarationOrAtRule {
    type V = DeclarationOrAtRuleView;

    open spec fn view(&self) -> DeclarationOrAtRuleView {
        match self {
            DeclarationOrAtRule::Declaration(d) => DeclarationOrAtRuleView::Declaration(d@),
            DeclarationOrAtRule::AtRule(a) => DeclarationOrAtRuleView::AtRule(a@),
        }
    }
}

impl View for StyleSheet {
    type V = StyleSheetView;

    open spec fn view(&self) -> StyleSheetView {
        StyleSheetView { rules: self.rules.deep_view() }
    }
}

impl DeepView for ComponentValue {
    type V = ComponentValueView;

    open spec fn deep_view(&self) -> ComponentValueView {
        self.view()
    }
}

impl DeepView for SimpleBlock {
    type V = SimpleBlockView;

    open spec fn deep_view(&self) -> SimpleBlockView {
        self.view()
    }
}

impl DeepView for Function {
    type V = FunctionView;

    open spec fn deep_view(&self) -> FunctionView {
        self.view()
    }
}

impl DeepView for QualifiedRule {
    type V = QualifiedRuleView;

    open spec fn deep_view(&self) -> QualifiedRuleView {
        self.view()
    }
}

impl DeepView for AtRule {
    type V = AtRuleView;

    open spec fn deep_view(&self) -> AtRuleView {
        self.view()
    }
}

impl DeepView for Declaration {
    type V = DeclarationView;

    open spec fn deep_view(&self) -> DeclarationView {
        self.view()
    }
}

impl DeepView for Rule {
    type V = RuleView;

    open spec fn deep_view(&self) -> RuleView {
        self.view()
    }
}

impl DeepView for DeclarationOrAtRule {
    type V = DeclarationOrAtRuleView;

    open spec fn deep_view(&self) -> DeclarationOrAtRuleView {
        self.view()
    }
}

impl QualifiedRule {
    pub fn new() -> (r: Self)
        ensures
            r@.prelude == Seq::<ComponentValueView>::empty(),
            r@.block is None,
    {
        Self { prelude: Vec::new(), block: None }
    }

    pub fn set_block(&mut self, block: SimpleBlock)
        ensures
            final(self)@ == (QualifiedRuleView { block: Some(block@), ..old(self)@ }),
    {
        self.block = Some(block);
        proof {
            assert(final(self)@.prelude =~= old(self)@.prelude);
        }
    }

    pub fn append_prelude(&mut self, value: ComponentValue)
        ensures
            final(self)@ == (QualifiedRuleView {
                prelude: old(self)@.prelude.push(cv_view(value)),
                ..old(self)@
            }),
    {
        self.prelude.push(value);
        proof {
            assert(final(self)@.prelude =~= old(self)@.prelude.push(value@));
        }
    }
}

impl AtRule {
    pub fn new(name: String) -> (r: Self)
        ensures
            r@.name == name@,
            r@.prelude == Seq::<ComponentValueView>::empty(),
            r@.block is None,
    {
        Self { name, prelude: Vec::new(), block: None }
    }

    pub fn set_block(&mut self, block: SimpleBlock)
        ensures
            final(self)@ == (AtRuleView { block: Some(block@), ..old(self)@ }),
    {
        self.block = Some(block);
        proof {
            assert(final(self)@.prelude =~= old(self)@.prelude);
        }
    }

    pub fn append_prelude(&mut self, value: ComponentValue)
        ensures
            final(self)@ == (AtRuleView {
                prelude: old(self)@.prelude.push(cv_view(value)),
                ..old(self)@
            }),
    {
        self.prelude.push(value);
        proof {
            assert(final(self)@.prelude =~= old(self)@.prelude.push(value@));
        }
    }
}

impl SimpleBlock {
    pub fn new(token: Token) -> (r: Self)
        ensures
            r@.token == token@,
            r@.value == Seq::<ComponentValueView>::empty(),
    {
        Self { token, value: Vec::new() }
    }

    pub fn append_value(&mut self, value: ComponentValue)
        ensures
            final(self)@ == (SimpleBlockView {
                value: old(self)@.value.push(cv_view(value)),
                ..old(self)@
            }),
    {
        self.value.push(value);
        proof {
            assert(final(self)@.value =~= old(self)@.value.push(value@));
        }
    }
}

impl Function {
    pub fn new(name: String) -> (r: Self)
        ensures
            r@.name == name@,
            r@.value == Seq::<ComponentValueView>::empty(),
    {
        Self { name, value: Vec::new() }
    }

    pub fn append_value(&mut self, value: ComponentValue)
        ensures
            final(self)@ == (FunctionView {
                value: old(self)@.value.push(cv_view(value)),
                ..old(self)@
            }),
    {
        self.value.push(value);
        proof {
            assert(final(self)@.value =~= old(self)@.value.push(value@));
        }
    }
}


impl Declaration {
    pub fn new(name: String) -> (r: Self)
        ensures
            r@.name == name@,
            r@.value == Seq::<ComponentValueView>::empty(),
            !r@.important,
    {
        Self { name, value: Vec::new(), important: false }
    }

    pub fn append_value(&mut self, value: ComponentValue)
        ensures
            final(self)@ == (DeclarationView {
                value: old(self)@.value.push(cv_view(value)),
                ..old(self)@
            }),
    {
        self.value.push(value);
        proof {
            assert(final(self)@.value =~= old(self)@.value.push(value@));
        }
    }

    /// The last `len` values, in reverse order (at most as many as exist).
    pub fn last_values(&self, len: usize) -> (r: Vec<&ComponentValue>)
        ensures
            r@.len() == (if len <= self.value@.len() {
                len as int
            } else {
                self.value@.len() as int
            }),
            forall|i: int|
                0 <= i < r@.len() ==> (#[trigger] r@[i])@ == self@.value[self.value@.len() - 1
                    - i],
    {
        let n = self.value.len();
        let take = if len <= n {
            len
        } else {
            n
        };
        let mut r: Vec<&ComponentValue> = Vec::new();
        let mut i: usize = 0;
        loop
            invariant_except_break
                0 <= i <= take,
                take <= n,
                n == self.value@.len(),
                r@.len() == i,
                forall|j: int|
                    0 <= j < i ==> (#[trigger] r@[j])@ == self@.value[n - 1 - j],
            ensures
                r@.len() == take,
                forall|j: int|
                    0 <= j < take ==> (#[trigger] r@[j])@ == self@.value[n - 1 - j],
            decreases take - i,
        {
            if i >= take {
                break ;
            }
            r.push(&self.value[n - 1 - i]);
            i = i + 1;
        }
        r
    }

    /// The last preserved token of the value, with its distance from the
    /// end: the values after it are all functions or blocks.
    pub fn last_token(&self) -> (r: Option<(usize, &Token)>)
        ensures
            match r {
                Some((i, t)) => {
                    let n = self.value@.len();
                    &&& i < n
                    &&& self@.value[n - 1 - i] == ComponentValueView::PerservedToken(t@)
                    &&& forall|j: int|
                        n - 1 - i < j < n ==> !(#[trigger] self@.value[j] is PerservedToken)
                },
                None => forall|j: int|
                    0 <= j < self.value@.len() ==> !(#[trigger] self@.value[j] is PerservedToken),
            },
    {
        let n = self.value.len();
        let mut i: usize = 0;
        loop
            invariant_except_break
                0 <= i <= n,
                n == self.value@.len(),
                forall|j: int|
                    n - i <= j < n ==> !(#[trigger] self@.value[j] is PerservedToken),
            ensures
                (i < n && self@.value[n - 1 - i] is PerservedToken && forall|j: int|
                    n - 1 - i < j < n ==> !(#[trigger] self@.value[j] is PerservedToken)) || (i
                    == n && forall|j: int|
                    0 <= j < n ==> !(#[trigger] self@.value[j] is PerservedToken)),
            decreases n - i,
        {
            if i >= n {
                break ;
            }
            let hit = match &self.value[n - 1 - i] {
                ComponentValue::PerservedToken(_) => true,
                _ => false,
            };
            if hit {
                break ;
            }
            i = i + 1;
        }
        if i < self.value.len() {
            match &self.value[self.value.len() - 1 - i] {
                ComponentValue::PerservedToken(t) => Some((i, t)),
                _ => {
                    proof {
                        assert(false);
                    }
                    None
                },
            }
        } else {
            None
        }
    }

    /// Removes up to `len` values from the end.
    pub fn pop_last(&mut self, len: usize)
        ensures
            final(self)@ == (DeclarationView {
                value: old(self)@.value.take(
                    if len <= old(self).value@.len() {
                        old(self).value@.len() - len
                    } else {
                        0
                    },
                ),
                ..old(self)@
            }),
    {
        let n = self.value.len();
        let keep = if len <= n {
            n - len
        } else {
            0
        };
        self.value.truncate(keep);
        proof {
            assert(final(self)@.value =~= old(self)@.value.take(keep as int));
        }
    }

    /// Removes the value at an index.
    pub fn remove(&mut self, index: usize)
        requires
            index < old(self).value@.len(),
        ensures
            final(self)@ == (DeclarationView {
                value: old(self)@.value.remove(index as int),
                ..old(self)@
            }),
    {
        let _removed = self.value.remove(index);
        proof {
            assert(final(self)@.value =~= old(self)@.value.remove(index as int));
        }
    }

    /// Marks the declaration important.
    pub fn important(&mut self)
        ensures
            final(self)@ == (DeclarationView { important: true, ..old(self)@ }),
    {
        self.important = true;
        proof {
            assert(final(self)@.value =~= old(self)@.value);
        }
    }
}

} // verus!

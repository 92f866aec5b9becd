//! The grammar-driven translator: a deterministic recursive recognizer over
//! the token stream whose reductions run the action layer as they match, so
//! the representation is built in a single pass with no intermediate tree.
//! The first failure aborts the unit.

use vstd::prelude::*;
use crate::actions::{
    ExpressionRule, FunctionCall, FunctionCallKind, TypeQualifier, assignment_action, lemma_call_wf_grow,
    binary_expression, comma_combine, declaration_statement_action, flatten_statements,
    float_constant, function_call_action, function_definition_action, function_header_action,
    global_declaration_action, int_constant, register_function, rule_wf, type_specifier_action,
    variable_identifier, version_action,
};
use crate::arena::Handle;
use crate::error::ErrorKind;
use crate::ir::{
    BinaryOperator, Binding, Expression, Profile, ScalarKind, Statement, Type, TypeInner,
    stmt_wf, stmts_wf,
};
use crate::program::Program;
use crate::token::{Token, TokenMetadata, TokenValue};

verus! {

broadcast use crate::arena::lemma_handle_idx_nonneg;

/// The first token of a primary expression, with its payload taken out.
enum Lead {
    Ident(String),
    IntLit(i64),
    FloatLit(u64),
    Paren,
    Other,
}

/// One qualifier token, with its payload taken out.
enum Qual {
    Storage(crate::ir::StorageClass),
    Interp(crate::ir::Interpolation),
    LayoutStart,
}

/// A qualifier token: storage class, layout, or interpolation.
pub open spec fn is_qualifier_value(v: TokenValue) -> bool {
    match v {
        TokenValue::Const => true,
        TokenValue::In => true,
        TokenValue::Out => true,
        TokenValue::Layout => true,
        TokenValue::Interpolation(_) => true,
        _ => false,
    }
}

/// A well-formed version header stands at position `p`: the version token,
/// then an accepted version integer.
pub open spec fn pragma_head(toks: Seq<Token>, p: int) -> bool {
    &&& p + 2 <= toks.len()
    &&& toks[p].value is Version
    &&& toks[p + 1].value matches TokenValue::IntConstant(v) && (v == 440 || v == 450 || v == 460)
}

/// A parameterless void function with an empty body stands at position `p`.
pub open spec fn minimal_function_at(toks: Seq<Token>, p: int) -> bool {
    &&& p + 6 <= toks.len()
    &&& toks[p].value is Void
    &&& toks[p + 1].value is Identifier
    &&& toks[p + 2].value is LeftParen
    &&& toks[p + 3].value is RightParen
    &&& toks[p + 4].value is LeftBrace
    &&& toks[p + 5].value is RightBrace
}

/// A smallest complete unit from position `p` to the end of input: a version
/// header without a profile, then one empty void function. Translation owes
/// success on every such input.
pub open spec fn minimal_module(toks: Seq<Token>, p: int) -> bool {
    &&& toks.len() == p + 8
    &&& pragma_head(toks, p)
    &&& minimal_function_at(toks, p + 2)
}

/// The recognizer: the token sequence and the read position.
pub struct Parser {
    tokens: Vec<Token>,
    pos: usize,
}

/// What the parser's type table answers for one token: `None` when the
/// token is no type token, `Some(None)` for void, else the shape. The
/// boolean scalar is 4 bytes wide here, as the declaration site has it.
pub open spec fn token_type_value(v: TokenValue) -> Option<Option<Type>> {
    match v {
        TokenValue::Void => Some(None),
        TokenValue::Bool => Some(
            Some(
                Type {
                    name: None,
                    inner: TypeInner::Scalar { kind: ScalarKind::Bool, width: 4 },
                },
            ),
        ),
        TokenValue::Int => Some(
            Some(
                Type {
                    name: None,
                    inner: TypeInner::Scalar { kind: ScalarKind::Sint, width: 4 },
                },
            ),
        ),
        TokenValue::Uint => Some(
            Some(
                Type {
                    name: None,
                    inner: TypeInner::Scalar { kind: ScalarKind::Uint, width: 4 },
                },
            ),
        ),
        TokenValue::Float => Some(
            Some(
                Type {
                    name: None,
                    inner: TypeInner::Scalar { kind: ScalarKind::Float, width: 4 },
                },
            ),
        ),
        TokenValue::Double => Some(
            Some(
                Type {
                    name: None,
                    inner: TypeInner::Scalar { kind: ScalarKind::Float, width: 8 },
                },
            ),
        ),
        TokenValue::Vec((size, kind, width)) => Some(
            Some(Type { name: None, inner: TypeInner::Vector { size, kind, width } }),
        ),
        TokenValue::Mat((columns, rows, kind, width)) => Some(
            Some(Type { name: None, inner: TypeInner::Matrix { columns, rows, kind, width } }),
        ),
        _ => None,
    }
}

impl Parser {
    pub fn new(tokens: Vec<Token>) -> (p: Parser)
        ensures
            p.pos() == 0,
            p@ == tokens@,
    {
        Parser { tokens, pos: 0 }
    }

    pub closed spec fn view(&self) -> Seq<Token> {
        self.tokens@
    }

    pub closed spec fn pos(&self) -> int {
        self.pos as int
    }

    pub open spec fn sane(&self) -> bool {
        self.pos() <= self@.len()
    }

    /// An unexpected-token error at the current position, or unexpected end
    /// of input.
    fn syntax_error_here(&self) -> (e: ErrorKind)
        requires
            self.sane(),
    {
        if self.pos < self.tokens.len() {
            ErrorKind::SyntaxError(Some(self.tokens[self.pos].meta))
        } else {
            ErrorKind::SyntaxError(None)
        }
    }

    fn current_meta(&self) -> (m: TokenMetadata)
        requires
            self.pos() < self@.len(),
    {
        self.tokens[self.pos].meta
    }

    fn bump(&mut self)
        requires
            old(self).pos() < old(self)@.len(),
        ensures
            final(self)@ == old(self)@,
            final(self).pos() == old(self).pos() + 1,
    {
        let n = self.tokens.len();
        assert(self.pos < n);
        self.pos = self.pos + 1;
    }

    fn at_end(&self) -> (r: bool)
        requires
            self.sane(),
        ensures
            r == (self.pos() == self@.len()),
    {
        self.pos == self.tokens.len()
    }

    fn peek_mul_op(&self) -> (r: Option<BinaryOperator>)
        requires
            self.sane(),
        ensures
            r is Some ==> self.pos() < self@.len(),
    {
        if self.pos < self.tokens.len() {
            match &self.tokens[self.pos].value {
                TokenValue::Star => Some(BinaryOperator::Multiply),
                TokenValue::Slash => Some(BinaryOperator::Divide),
                TokenValue::Percent => Some(BinaryOperator::Modulo),
                _ => None,
            }
        } else {
            None
        }
    }

    fn peek_add_op(&self) -> (r: Option<BinaryOperator>)
        requires
            self.sane(),
        ensures
            r is Some ==> self.pos() < self@.len(),
    {
        if self.pos < self.tokens.len() {
            match &self.tokens[self.pos].value {
                TokenValue::Plus => Some(BinaryOperator::Add),
                TokenValue::Dash => Some(BinaryOperator::Subtract),
                _ => None,
            }
        } else {
            None
        }
    }

    fn peek_shift_op(&self) -> (r: Option<BinaryOperator>)
        requires
            self.sane(),
        ensures
            r is Some ==> self.pos() < self@.len(),
    {
        if self.pos < self.tokens.len() {
            match &self.tokens[self.pos].value {
                TokenValue::LeftOp => Some(BinaryOperator::ShiftLeftLogical),
                TokenValue::RightOp => Some(BinaryOperator::ShiftRightArithmetic),
                _ => None,
            }
        } else {
            None
        }
    }

    fn peek_rel_op(&self) -> (r: Option<BinaryOperator>)
        requires
            self.sane(),
        ensures
            r is Some ==> self.pos() < self@.len(),
    {
        if self.pos < self.tokens.len() {
            match &self.tokens[self.pos].value {
                TokenValue::LeftAngle => Some(BinaryOperator::Less),
                TokenValue::RightAngle => Some(BinaryOperator::Greater),
                TokenValue::LeOp => Some(BinaryOperator::LessEqual),
                TokenValue::GeOp => Some(BinaryOperator::GreaterEqual),
                _ => None,
            }
        } else {
            None
        }
    }

    fn peek_eq_op(&self) -> (r: Option<BinaryOperator>)
        requires
            self.sane(),
        ensures
            r is Some ==> self.pos() < self@.len(),
    {
        if self.pos < self.tokens.len() {
            match &self.tokens[self.pos].value {
                TokenValue::EqOp => Some(BinaryOperator::Equal),
                TokenValue::NeOp => Some(BinaryOperator::NotEqual),
                _ => None,
            }
        } else {
            None
        }
    }

    /// The compound-assignment operators all map to a binary tag; only the
    /// plain `=` tag is translated further down.
    fn peek_assign_op(&self) -> (r: Option<BinaryOperator>)
        requires
            self.sane(),
        ensures
            r is Some ==> self.pos() < self@.len(),
    {
        if self.pos < self.tokens.len() {
            match &self.tokens[self.pos].value {
                TokenValue::Equal => Some(BinaryOperator::Equal),
                TokenValue::MulAssign => Some(BinaryOperator::Multiply),
                TokenValue::DivAssign => Some(BinaryOperator::Divide),
                TokenValue::ModAssign => Some(BinaryOperator::Modulo),
                TokenValue::AddAssign => Some(BinaryOperator::Add),
                TokenValue::SubAssign => Some(BinaryOperator::Subtract),
                TokenValue::LeftAssign => Some(BinaryOperator::ShiftLeftLogical),
                TokenValue::RightAssign => Some(BinaryOperator::ShiftRightArithmetic),
                TokenValue::AndAssign => Some(BinaryOperator::And),
                TokenValue::XorAssign => Some(BinaryOperator::ExclusiveOr),
                TokenValue::OrAssign => Some(BinaryOperator::InclusiveOr),
                _ => None,
            }
        } else {
            None
        }
    }

    /// A unary prefix token, answered as the feature name its translation
    /// would need.
    fn peek_unary_prefix(&self) -> (r: Option<&'static str>)
        requires
            self.sane(),
        ensures
            r is Some ==> self.pos() < self@.len(),
    {
        if self.pos < self.tokens.len() {
            match &self.tokens[self.pos].value {
                TokenValue::IncOp => Some("++pre"),
                TokenValue::DecOp => Some("--pre"),
                TokenValue::Plus => Some("unary_op"),
                TokenValue::Dash => Some("unary_op"),
                TokenValue::Bang => Some("unary_op"),
                TokenValue::Tilde => Some("unary_op"),
                _ => None,
            }
        } else {
            None
        }
    }

    /// Whether one plain token stands at the current position.
    fn peek_ampersand(&self) -> (r: bool)
        requires
            self.sane(),
        ensures
            r ==> self.pos() < self@.len(),
    {
        self.pos < self.tokens.len() && match &self.tokens[self.pos].value {
            TokenValue::Ampersand => true,
            _ => false,
        }
    }

    fn peek_caret(&self) -> (r: bool)
        requires
            self.sane(),
        ensures
            r ==> self.pos() < self@.len(),
    {
        self.pos < self.tokens.len() && match &self.tokens[self.pos].value {
            TokenValue::Caret => true,
            _ => false,
        }
    }

    fn peek_vertical_bar(&self) -> (r: bool)
        requires
            self.sane(),
        ensures
            r ==> self.pos() < self@.len(),
    {
        self.pos < self.tokens.len() && match &self.tokens[self.pos].value {
            TokenValue::VerticalBar => true,
            _ => false,
        }
    }

    fn peek_and_op(&self) -> (r: bool)
        requires
            self.sane(),
        ensures
            r ==> self.pos() < self@.len(),
    {
        self.pos < self.tokens.len() && match &self.tokens[self.pos].value {
            TokenValue::AndOp => true,
            _ => false,
        }
    }

    fn peek_xor_op(&self) -> (r: bool)
        requires
            self.sane(),
        ensures
            r ==> self.pos() < self@.len(),
    {
        self.pos < self.tokens.len() && match &self.tokens[self.pos].value {
            TokenValue::XorOp => true,
            _ => false,
        }
    }

    fn peek_or_op(&self) -> (r: bool)
        requires
            self.sane(),
        ensures
            r ==> self.pos() < self@.len(),
    {
        self.pos < self.tokens.len() && match &self.tokens[self.pos].value {
            TokenValue::OrOp => true,
            _ => false,
        }
    }

    fn peek_question(&self) -> (r: bool)
        requires
            self.sane(),
        ensures
            r ==> self.pos() < self@.len(),
    {
        self.pos < self.tokens.len() && match &self.tokens[self.pos].value {
            TokenValue::Question => true,
            _ => false,
        }
    }

    fn peek_comma(&self) -> (r: bool)
        requires
            self.sane(),
        ensures
            r ==> self.pos() < self@.len(),
    {
        self.pos < self.tokens.len() && match &self.tokens[self.pos].value {
            TokenValue::Comma => true,
            _ => false,
        }
    }

    fn peek_semicolon(&self) -> (r: bool)
        requires
            self.sane(),
        ensures
            r ==> self.pos() < self@.len(),
    {
        self.pos < self.tokens.len() && match &self.tokens[self.pos].value {
            TokenValue::Semicolon => true,
            _ => false,
        }
    }

    fn peek_left_paren(&self) -> (r: bool)
        requires
            self.sane(),
        ensures
            r == (self.pos() < self@.len() && self@[self.pos()].value is LeftParen),
    {
        self.pos < self.tokens.len() && match &self.tokens[self.pos].value {
            TokenValue::LeftParen => true,
            _ => false,
        }
    }

    fn peek_right_paren(&self) -> (r: bool)
        requires
            self.sane(),
        ensures
            r == (self.pos() < self@.len() && self@[self.pos()].value is RightParen),
    {
        self.pos < self.tokens.len() && match &self.tokens[self.pos].value {
            TokenValue::RightParen => true,
            _ => false,
        }
    }

    fn peek_left_brace(&self) -> (r: bool)
        requires
            self.sane(),
        ensures
            r == (self.pos() < self@.len() && self@[self.pos()].value is LeftBrace),
    {
        self.pos < self.tokens.len() && match &self.tokens[self.pos].value {
            TokenValue::LeftBrace => true,
            _ => false,
        }
    }

    fn peek_right_brace(&self) -> (r: bool)
        requires
            self.sane(),
        ensures
            r == (self.pos() < self@.len() && self@[self.pos()].value is RightBrace),
    {
        self.pos < self.tokens.len() && match &self.tokens[self.pos].value {
            TokenValue::RightBrace => true,
            _ => false,
        }
    }

    fn peek_void(&self) -> (r: bool)
        requires
            self.sane(),
        ensures
            r ==> self.pos() < self@.len(),
    {
        self.pos < self.tokens.len() && match &self.tokens[self.pos].value {
            TokenValue::Void => true,
            _ => false,
        }
    }

    fn peek_identifier(&self) -> (r: bool)
        requires
            self.sane(),
        ensures
            r == (self.pos() < self@.len() && self@[self.pos()].value is Identifier),
    {
        self.pos < self.tokens.len() && match &self.tokens[self.pos].value {
            TokenValue::Identifier(_) => true,
            _ => false,
        }
    }

    fn peek_equal(&self) -> (r: bool)
        requires
            self.sane(),
        ensures
            r ==> self.pos() < self@.len(),
    {
        self.pos < self.tokens.len() && match &self.tokens[self.pos].value {
            TokenValue::Equal => true,
            _ => false,
        }
    }

    fn peek_postfix_suffix(&self) -> (r: Option<&'static str>)
        requires
            self.sane(),
        ensures
            r is Some ==> self.pos() < self@.len(),
    {
        if self.pos < self.tokens.len() {
            match &self.tokens[self.pos].value {
                TokenValue::LeftBracket => Some("[]"),
                TokenValue::Dot => Some(".field"),
                TokenValue::IncOp => Some("post++"),
                TokenValue::DecOp => Some("post--"),
                _ => None,
            }
        } else {
            None
        }
    }

    /// Whether a type token stands at the current position.
    fn peek_type_token(&self) -> (r: bool)
        requires
            self.sane(),
        ensures
            r == (self.pos() < self@.len() && token_type_value(self@[self.pos()].value) is Some),
    {
        self.pos < self.tokens.len() && match &self.tokens[self.pos].value {
            TokenValue::Void => true,
            TokenValue::Bool => true,
            TokenValue::Int => true,
            TokenValue::Uint => true,
            TokenValue::Float => true,
            TokenValue::Double => true,
            TokenValue::Vec(_) => true,
            TokenValue::Mat(_) => true,
            _ => false,
        }
    }

    /// Whether a qualifier token stands at the current position.
    fn peek_qualifier_token(&self) -> (r: bool)
        requires
            self.sane(),
        ensures
            r == (self.pos() < self@.len() && is_qualifier_value(self@[self.pos()].value)),
    {
        self.pos < self.tokens.len() && match &self.tokens[self.pos].value {
            TokenValue::Const => true,
            TokenValue::In => true,
            TokenValue::Out => true,
            TokenValue::Layout => true,
            TokenValue::Interpolation(_) => true,
            _ => false,
        }
    }

    /// Whether the token after the current one is a left parenthesis.
    fn peek_second_left_paren(&self) -> (r: bool)
        requires
            self.sane(),
        ensures
            r == (self.pos() + 1 < self@.len() && self@[self.pos() + 1].value is LeftParen),
    {
        if self.pos < self.tokens.len() {
            if self.pos + 1 < self.tokens.len() {
                match &self.tokens[self.pos + 1].value {
                    TokenValue::LeftParen => true,
                    _ => false,
                }
            } else {
                false
            }
        } else {
            false
        }
    }

    /// Reads an identifier and its position, or refuses the token.
    fn take_identifier(&mut self) -> (r: Result<(TokenMetadata, String), ErrorKind>)
        requires
            old(self).sane(),
        ensures
            final(self)@ == old(self)@,
            final(self).sane(),
            old(self).pos() <= final(self).pos() <= old(self).pos() + 1,
            r is Ok ==> final(self).pos() == old(self).pos() + 1,
            (old(self).pos() < old(self)@.len() && old(self)@[old(self).pos()].value
                is Identifier) ==> r is Ok,
            r matches Ok(pr) ==> (old(self)@[old(self).pos()].value matches
                TokenValue::Identifier(nm) && pr.1@ == nm@),
    {
        if self.pos < self.tokens.len() {
            let meta = self.tokens[self.pos].meta;
            let name: Option<String> = match &self.tokens[self.pos].value {
                TokenValue::Identifier(s) => Some(s.clone()),
                _ => None,
            };
            proof {
                assert(match name {
                    Some(n) => self@[self.pos()].value matches TokenValue::Identifier(nm)
                        && n@ == nm@,
                    None => true,
                });
            }
            match name {
                Some(n) => {
                    self.pos = self.pos + 1;
                    Ok((meta, n))
                },
                None => Err(ErrorKind::SyntaxError(Some(meta))),
            }
        } else {
            Err(ErrorKind::SyntaxError(None))
        }
    }

    /// Reads the resolved type a type token stands for, interning it.
    fn parse_type_specifier(&mut self, prog: &mut Program) -> (r: Result<
        Option<Handle<Type>>,
        ErrorKind,
    >)
        requires
            old(self).sane(),
            old(prog).wf(),
        ensures
            final(self)@ == old(self)@,
            final(self).sane(),
            old(self).pos() <= final(self).pos(),
            final(prog).wf(),
            final(prog).context == old(prog).context,
            final(prog).global_variables@ == old(prog).global_variables@,
            final(prog).lookup_global_variables@ == old(prog).lookup_global_variables@,
            final(prog).functions@ == old(prog).functions@,
            final(prog).lookup_function@ == old(prog).lookup_function@,
            final(prog).constants@ == old(prog).constants@,
            crate::actions::same_header(*old(prog), *final(prog)),
            final(prog).types@.len() >= old(prog).types@.len(),
            r matches Ok(Some(h)) ==> h.idx() < final(prog).types@.len(),
            (old(self).pos() < old(self)@.len() && token_type_value(
                old(self)@[old(self).pos()].value,
            ) is Some) ==> r is Ok && final(self).pos() == old(self).pos() + 1,
    {
        if self.pos < self.tokens.len() {
            let t: Option<Option<Type>> = match &self.tokens[self.pos].value {
                TokenValue::Void => Some(None),
                TokenValue::Bool => Some(
                    Some(
                        Type {
                            name: None,
                            inner: TypeInner::Scalar { kind: ScalarKind::Bool, width: 4 },
                        },
                    ),
                ),
                TokenValue::Int => Some(
                    Some(
                        Type {
                            name: None,
                            inner: TypeInner::Scalar { kind: ScalarKind::Sint, width: 4 },
                        },
                    ),
                ),
                TokenValue::Uint => Some(
                    Some(
                        Type {
                            name: None,
                            inner: TypeInner::Scalar { kind: ScalarKind::Uint, width: 4 },
                        },
                    ),
                ),
                TokenValue::Float => Some(
                    Some(
                        Type {
                            name: None,
                            inner: TypeInner::Scalar { kind: ScalarKind::Float, width: 4 },
                        },
                    ),
                ),
                TokenValue::Double => Some(
                    Some(
                        Type {
                            name: None,
                            inner: TypeInner::Scalar { kind: ScalarKind::Float, width: 8 },
                        },
                    ),
                ),
                TokenValue::Vec(triple) => {
                    let (size, kind, width) = *triple;
                    Some(Some(Type { name: None, inner: TypeInner::Vector { size, kind, width } }))
                },
                TokenValue::Mat(quad) => {
                    let (columns, rows, kind, width) = *quad;
                    Some(
                        Some(
                            Type {
                                name: None,
                                inner: TypeInner::Matrix { columns, rows, kind, width },
                            },
                        ),
                    )
                },
                _ => None,
            };
            proof {
                assert(t == token_type_value(self@[self.pos()].value));
            }
            match t {
                Some(tv) => {
                    self.pos = self.pos + 1;
                    let h = type_specifier_action(prog, tv);
                    Ok(h)
                },
                None => Err(ErrorKind::SyntaxError(Some(self.tokens[self.pos].meta))),
            }
        } else {
            Err(ErrorKind::SyntaxError(None))
        }
    }
    /// Arguments and closing parenthesis of a call whose header is already
    /// open; extends the call with each argument's handle and pending
    /// statements in order.
    fn parse_call_arguments(&mut self, prog: &mut Program, fc: FunctionCall) -> (r: Result<
        FunctionCall,
        ErrorKind,
    >)
        requires
            old(self).sane(),
            old(prog).wf(),
            crate::actions::call_wf(
                fc,
                old(prog).types@.len() as int,
                old(prog).context.expressions@.len() as int,
            ),
        ensures
            final(self)@ == old(self)@,
            final(self).sane(),
            old(self).pos() <= final(self).pos(),
            final(prog).wf(),
            final(prog).context.frames() == old(prog).context.frames(),
            final(prog).context.local_variables@ == old(prog).context.local_variables@,
            final(prog).context.expressions@.len() >= old(prog).context.expressions@.len(),
            final(prog).types@.len() >= old(prog).types@.len(),
            final(prog).functions@ == old(prog).functions@,
            final(prog).lookup_function@ == old(prog).lookup_function@,
            crate::actions::same_header(*old(prog), *final(prog)),
            r matches Ok(out) ==> crate::actions::call_wf(
                out,
                final(prog).types@.len() as int,
                final(prog).context.expressions@.len() as int,
            ),
        decreases self.tokens@.len() - self.pos, 17int,
    {
        let mut fc = fc;
        // A lone `void` argument, or none at all, closes the call empty.
        if self.peek_void() {
            self.bump();
            if self.peek_right_paren() {
                self.bump();
                proof {
                    lemma_call_wf_grow(fc, *old(prog), *prog);
                }
                return Ok(fc);
            }
            return Err(self.syntax_error_here());
        }
        if self.peek_right_paren() {
            self.bump();
            proof {
                lemma_call_wf_grow(fc, *old(prog), *prog);
            }
            return Ok(fc);
        }
        loop
            invariant
                self.sane(),
                self@ == old(self)@,
                old(self).pos() <= self.pos(),
                prog.wf(),
                prog.context.frames() == old(prog).context.frames(),
                prog.context.local_variables@ == old(prog).context.local_variables@,
                prog.context.expressions@.len() >= old(prog).context.expressions@.len(),
                prog.types@.len() >= old(prog).types@.len(),
                prog.functions@ == old(prog).functions@,
                prog.lookup_function@ == old(prog).lookup_function@,
                crate::actions::same_header(*old(prog), *prog),
                crate::actions::call_wf(
                    fc,
                    prog.types@.len() as int,
                    prog.context.expressions@.len() as int,
                ),
            decreases self.tokens@.len() - self.pos,
        {
            let ghost pre = *prog;
            let ae = match self.parse_assignment(prog) {
                Ok(ae) => ae,
                Err(e) => {
                    return Err(e);
                },
            };
            proof {
                lemma_call_wf_grow(fc, pre, *prog);
            }
            let ghost fc_before = fc;
            let ghost ae_ghost = ae;
            fc.args.push(ae.expression);
            let ExpressionRule { expression: aexpr, statements: aestmts } = ae;
            let mut aestmts = aestmts;
            fc.statements.append(&mut aestmts);
            proof {
                let ne = prog.context.expressions@.len() as int;
                assert(fc.statements@ == fc_before.statements@ + ae_ghost.statements@);
                assert forall|i: int| 0 <= i < fc.statements@.len() implies stmt_wf(
                    #[trigger] fc.statements@[i],
                    ne,
                ) by {
                    if i < fc_before.statements@.len() {
                        assert(fc.statements@[i] == fc_before.statements@[i]);
                    } else {
                        assert(fc.statements@[i] == ae_ghost.statements@[
                            i - fc_before.statements@.len()]);
                    }
                }
                assert forall|i: int| 0 <= i < fc.args@.len() implies (
                #[trigger] fc.args@[i]).idx() < ne by {
                    if i < fc_before.args@.len() {
                        assert(fc.args@[i] == fc_before.args@[i]);
                    } else {
                        assert(fc.args@[i] == ae_ghost.expression);
                    }
                }
            }
            if self.peek_comma() {
                self.bump();
            } else if self.peek_right_paren() {
                self.bump();
                return Ok(fc);
            } else {
                return Err(self.syntax_error_here());
            }
        }
    }

    /// A primary expression: an identifier, a literal, or a parenthesized
    /// expression.
    fn parse_primary(&mut self, prog: &mut Program) -> (r: Result<ExpressionRule, ErrorKind>)
        requires
            old(self).sane(),
            old(prog).wf(),
        ensures
            final(self)@ == old(self)@,
            final(self).sane(),
            old(self).pos() <= final(self).pos(),
            final(prog).wf(),
            final(prog).context.frames() == old(prog).context.frames(),
            final(prog).context.local_variables@ == old(prog).context.local_variables@,
            final(prog).context.expressions@.len() >= old(prog).context.expressions@.len(),
            final(prog).types@.len() >= old(prog).types@.len(),
            final(prog).functions@ == old(prog).functions@,
            final(prog).lookup_function@ == old(prog).lookup_function@,
            crate::actions::same_header(*old(prog), *final(prog)),
            r matches Ok(rule) ==> rule_wf(rule, final(prog).context.expressions@.len() as int),
        decreases self.tokens@.len() - self.pos, 0int,
    {
        if self.pos >= self.tokens.len() {
            return Err(ErrorKind::SyntaxError(None));
        }
        let meta = self.tokens[self.pos].meta;
        let lead = match &self.tokens[self.pos].value {
            TokenValue::Identifier(s) => Lead::Ident(s.clone()),
            TokenValue::IntConstant(i) => Lead::IntLit(*i),
            TokenValue::FloatConstant(bits) => Lead::FloatLit(*bits),
            TokenValue::LeftParen => Lead::Paren,
            _ => Lead::Other,
        };
        match lead {
            Lead::Ident(name) => {
                self.bump();
                variable_identifier(prog, meta, name)
            },
            Lead::IntLit(i) => {
                self.bump();
                Ok(int_constant(prog, i))
            },
            Lead::FloatLit(bits) => {
                self.bump();
                Ok(float_constant(prog, bits))
            },
            Lead::Paren => {
                self.bump();
                let e = match self.parse_expression(prog) {
                    Ok(e) => e,
                    Err(err) => {
                        return Err(err);
                    },
                };
                if self.peek_right_paren() {
                    self.bump();
                    Ok(e)
                } else {
                    Err(self.syntax_error_here())
                }
            },
            Lead::Other => Err(ErrorKind::SyntaxError(Some(meta))),
        }
    }

    /// A postfix expression: a primary, a constructor call when the target
    /// parses as a type specifier, or a recognized-but-refused suffix.
    fn parse_postfix(&mut self, prog: &mut Program) -> (r: Result<ExpressionRule, ErrorKind>)
        requires
            old(self).sane(),
            old(prog).wf(),
        ensures
            final(self)@ == old(self)@,
            final(self).sane(),
            old(self).pos() <= final(self).pos(),
            final(prog).wf(),
            final(prog).context.frames() == old(prog).context.frames(),
            final(prog).context.local_variables@ == old(prog).context.local_variables@,
            final(prog).context.expressions@.len() >= old(prog).context.expressions@.len(),
            final(prog).types@.len() >= old(prog).types@.len(),
            final(prog).functions@ == old(prog).functions@,
            final(prog).lookup_function@ == old(prog).lookup_function@,
            crate::actions::same_header(*old(prog), *final(prog)),
            r matches Ok(rule) ==> rule_wf(rule, final(prog).context.expressions@.len() as int),
        decreases self.tokens@.len() - self.pos, 1int,
    {
        let mut e: ExpressionRule;
        if self.peek_type_token() {
            // A call target that parses as a type specifier is a type
            // constructor.
            let oty = match self.parse_type_specifier(prog) {
                Ok(t) => t,
                Err(err) => {
                    return Err(err);
                },
            };
            let ty = match oty {
                Some(ty) => ty,
                None => {
                    return Err(ErrorKind::UnimplementedFeature("bad type ctor"));
                },
            };
            if !self.peek_left_paren() {
                return Err(self.syntax_error_here());
            }
            self.bump();
            let fc = FunctionCall {
                kind: FunctionCallKind::TypeConstructor(ty),
                args: Vec::new(),
                statements: Vec::new(),
            };
            let fc = match self.parse_call_arguments(prog, fc) {
                Ok(fc) => fc,
                Err(err) => {
                    return Err(err);
                },
            };
            e = match function_call_action(prog, fc) {
                Ok(rule) => rule,
                Err(err) => {
                    return Err(err);
                },
            };
        } else {
            e = match self.parse_primary(prog) {
                Ok(rule) => rule,
                Err(err) => {
                    return Err(err);
                },
            };
            // An ordinary expression followed by a call is a function call:
            // recognized, then refused after its arguments parse.
            if self.peek_left_paren() {
                self.bump();
                let fc = FunctionCall {
                    kind: FunctionCallKind::Function(e.expression),
                    args: Vec::new(),
                    statements: Vec::new(),
                };
                let fc = match self.parse_call_arguments(prog, fc) {
                    Ok(fc) => fc,
                    Err(err) => {
                        return Err(err);
                    },
                };
                match function_call_action(prog, fc) {
                    Ok(rule) => {
                        return Ok(rule);
                    },
                    Err(err) => {
                        return Err(err);
                    },
                }
            }
        }
        match self.peek_postfix_suffix() {
            Some(feature) => Err(ErrorKind::UnimplementedFeature(feature)),
            None => Ok(e),
        }
    }

    /// A unary expression: prefix operators are recognized and refused.
    fn parse_unary(&mut self, prog: &mut Program) -> (r: Result<ExpressionRule, ErrorKind>)
        requires
            old(self).sane(),
            old(prog).wf(),
        ensures
            final(self)@ == old(self)@,
            final(self).sane(),
            old(self).pos() <= final(self).pos(),
            final(prog).wf(),
            final(prog).context.frames() == old(prog).context.frames(),
            final(prog).context.local_variables@ == old(prog).context.local_variables@,
            final(prog).context.expressions@.len() >= old(prog).context.expressions@.len(),
            final(prog).types@.len() >= old(prog).types@.len(),
            final(prog).functions@ == old(prog).functions@,
            final(prog).lookup_function@ == old(prog).lookup_function@,
            crate::actions::same_header(*old(prog), *final(prog)),
            r matches Ok(rule) ==> rule_wf(rule, final(prog).context.expressions@.len() as int),
        decreases self.tokens@.len() - self.pos, 2int,
    {
        match self.peek_unary_prefix() {
            Some(feature) => {
                self.bump();
                match self.parse_unary(prog) {
                    Ok(_) => Err(ErrorKind::UnimplementedFeature(feature)),
                    Err(err) => Err(err),
                }
            },
            None => self.parse_postfix(prog),
        }
    }

    fn peek_colon(&self) -> (r: bool)
        requires
            self.sane(),
        ensures
            r ==> self.pos() < self@.len(),
    {
        self.pos < self.tokens.len() && match &self.tokens[self.pos].value {
            TokenValue::Colon => true,
            _ => false,
        }
    }

    /// One left-associative binary level: multiplication, division, modulo.
    fn parse_multiplicative(&mut self, prog: &mut Program) -> (r: Result<
        (Handle<Expression>, Option<ExpressionRule>),
        ErrorKind,
    >)
        requires
            old(self).sane(),
            old(prog).wf(),
        ensures
            final(self)@ == old(self)@,
            final(self).sane(),
            old(self).pos() <= final(self).pos(),
            final(prog).wf(),
            final(prog).context.frames() == old(prog).context.frames(),
            final(prog).context.local_variables@ == old(prog).context.local_variables@,
            final(prog).context.expressions@.len() >= old(prog).context.expressions@.len(),
            final(prog).types@.len() >= old(prog).types@.len(),
            final(prog).functions@ == old(prog).functions@,
            final(prog).lookup_function@ == old(prog).lookup_function@,
            crate::actions::same_header(*old(prog), *final(prog)),
            r matches Ok(p) ==> p.0.idx() < final(prog).context.expressions@.len() && (
            p.1 matches Some(rule) ==> rule_wf(
                rule,
                final(prog).context.expressions@.len() as int,
            ) && rule.expression == p.0),
        decreases self.tokens@.len() - self.pos, 3int,
    {
        let first = match self.parse_unary(prog) {
            Ok(rule) => rule,
            Err(err) => {
                return Err(err);
            },
        };
        let mut left: Handle<Expression> = first.expression;
        let mut unary: Option<ExpressionRule> = Some(first);
        loop
            invariant
                self.sane(),
                self@ == old(self)@,
                old(self).pos() <= self.pos(),
                prog.wf(),
                prog.context.frames() == old(prog).context.frames(),
                prog.context.local_variables@ == old(prog).context.local_variables@,
                prog.context.expressions@.len() >= old(prog).context.expressions@.len(),
                prog.types@.len() >= old(prog).types@.len(),
                prog.functions@ == old(prog).functions@,
                prog.lookup_function@ == old(prog).lookup_function@,
                crate::actions::same_header(*old(prog), *prog),
                left.idx() < prog.context.expressions@.len(),
                unary matches Some(rule) ==> rule_wf(
                    rule,
                    prog.context.expressions@.len() as int,
                ) && rule.expression == left,
            decreases self.tokens@.len() - self.pos,
        {
            match self.peek_mul_op() {
                Some(op) => {
                    self.bump();
                    let right = match self.parse_unary(prog) {
                        Ok(rule) => rule,
                        Err(err) => {
                            return Err(err);
                        },
                    };
                    left = binary_expression(prog, op, left, right.expression);
                    unary = None;
                },
                None => {
                    return Ok((left, unary));
                },
            }
        }
    }

    /// Addition and subtraction.
    fn parse_additive(&mut self, prog: &mut Program) -> (r: Result<
        (Handle<Expression>, Option<ExpressionRule>),
        ErrorKind,
    >)
        requires
            old(self).sane(),
            old(prog).wf(),
        ensures
            final(self)@ == old(self)@,
            final(self).sane(),
            old(self).pos() <= final(self).pos(),
            final(prog).wf(),
            final(prog).context.frames() == old(prog).context.frames(),
            final(prog).context.local_variables@ == old(prog).context.local_variables@,
            final(prog).context.expressions@.len() >= old(prog).context.expressions@.len(),
            final(prog).types@.len() >= old(prog).types@.len(),
            final(prog).functions@ == old(prog).functions@,
            final(prog).lookup_function@ == old(prog).lookup_function@,
            crate::actions::same_header(*old(prog), *final(prog)),
            r matches Ok(p) ==> p.0.idx() < final(prog).context.expressions@.len() && (
            p.1 matches Some(rule) ==> rule_wf(
                rule,
                final(prog).context.expressions@.len() as int,
            ) && rule.expression == p.0),
        decreases self.tokens@.len() - self.pos, 4int,
    {
        let first = match self.parse_multiplicative(prog) {
            Ok(p) => p,
            Err(err) => {
                return Err(err);
            },
        };
        let mut left: Handle<Expression> = first.0;
        let mut unary: Option<ExpressionRule> = first.1;
        loop
            invariant
                self.sane(),
                self@ == old(self)@,
                old(self).pos() <= self.pos(),
                prog.wf(),
                prog.context.frames() == old(prog).context.frames(),
                prog.context.local_variables@ == old(prog).context.local_variables@,
                prog.context.expressions@.len() >= old(prog).context.expressions@.len(),
                prog.types@.len() >= old(prog).types@.len(),
                prog.functions@ == old(prog).functions@,
                prog.lookup_function@ == old(prog).lookup_function@,
                crate::actions::same_header(*old(prog), *prog),
                left.idx() < prog.context.expressions@.len(),
                unary matches Some(rule) ==> rule_wf(
                    rule,
                    prog.context.expressions@.len() as int,
                ) && rule.expression == left,
            decreases self.tokens@.len() - self.pos,
        {
            match self.peek_add_op() {
                Some(op) => {
                    self.bump();
                    let right = match self.parse_multiplicative(prog) {
                        Ok(p) => p,
                        Err(err) => {
                            return Err(err);
                        },
                    };
                    left = binary_expression(prog, op, left, right.0);
                    unary = None;
                },
                None => {
                    return Ok((left, unary));
                },
            }
        }
    }

    /// Shifts.
    fn parse_shift(&mut self, prog: &mut Program) -> (r: Result<
        (Handle<Expression>, Option<ExpressionRule>),
        ErrorKind,
    >)
        requires
            old(self).sane(),
            old(prog).wf(),
        ensures
            final(self)@ == old(self)@,
            final(self).sane(),
            old(self).pos() <= final(self).pos(),
            final(prog).wf(),
            final(prog).context.frames() == old(prog).context.frames(),
            final(prog).context.local_variables@ == old(prog).context.local_variables@,
            final(prog).context.expressions@.len() >= old(prog).context.expressions@.len(),
            final(prog).types@.len() >= old(prog).types@.len(),
            final(prog).functions@ == old(prog).functions@,
            final(prog).lookup_function@ == old(prog).lookup_function@,
            crate::actions::same_header(*old(prog), *final(prog)),
            r matches Ok(p) ==> p.0.idx() < final(prog).context.expressions@.len() && (
            p.1 matches Some(rule) ==> rule_wf(
                rule,
                final(prog).context.expressions@.len() as int,
            ) && rule.expression == p.0),
        decreases self.tokens@.len() - self.pos, 5int,
    {
        let first = match self.parse_additive(prog) {
            Ok(p) => p,
            Err(err) => {
                return Err(err);
            },
        };
        let mut left: Handle<Expression> = first.0;
        let mut unary: Option<ExpressionRule> = first.1;
        loop
            invariant
                self.sane(),
                self@ == old(self)@,
                old(self).pos() <= self.pos(),
                prog.wf(),
                prog.context.frames() == old(prog).context.frames(),
                prog.context.local_variables@ == old(prog).context.local_variables@,
                prog.context.expressions@.len() >= old(prog).context.expressions@.len(),
                prog.types@.len() >= old(prog).types@.len(),
                prog.functions@ == old(prog).functions@,
                prog.lookup_function@ == old(prog).lookup_function@,
                crate::actions::same_header(*old(prog), *prog),
                left.idx() < prog.context.expressions@.len(),
                unary matches Some(rule) ==> rule_wf(
                    rule,
                    prog.context.expressions@.len() as int,
                ) && rule.expression == left,
            decreases self.tokens@.len() - self.pos,
        {
            match self.peek_shift_op() {
                Some(op) => {
                    self.bump();
                    let right = match self.parse_additive(prog) {
                        Ok(p) => p,
                        Err(err) => {
                            return Err(err);
                        },
                    };
                    left = binary_expression(prog, op, left, right.0);
                    unary = None;
                },
                None => {
                    return Ok((left, unary));
                },
            }
        }
    }

    /// Orderings.
    fn parse_relational(&mut self, prog: &mut Program) -> (r: Result<
        (Handle<Expression>, Option<ExpressionRule>),
        ErrorKind,
    >)
        requires
            old(self).sane(),
            old(prog).wf(),
        ensures
            final(self)@ == old(self)@,
            final(self).sane(),
            old(self).pos() <= final(self).pos(),
            final(prog).wf(),
            final(prog).context.frames() == old(prog).context.frames(),
            final(prog).context.local_variables@ == old(prog).context.local_variables@,
            final(prog).context.expressions@.len() >= old(prog).context.expressions@.len(),
            final(prog).types@.len() >= old(prog).types@.len(),
            final(prog).functions@ == old(prog).functions@,
            final(prog).lookup_function@ == old(prog).lookup_function@,
            crate::actions::same_header(*old(prog), *final(prog)),
            r matches Ok(p) ==> p.0.idx() < final(prog).context.expressions@.len() && (
            p.1 matches Some(rule) ==> rule_wf(
                rule,
                final(prog).context.expressions@.len() as int,
            ) && rule.expression == p.0),
        decreases self.tokens@.len() - self.pos, 6int,
    {
        let first = match self.parse_shift(prog) {
            Ok(p) => p,
            Err(err) => {
                return Err(err);
            },
        };
        let mut left: Handle<Expression> = first.0;
        let mut unary: Option<ExpressionRule> = first.1;
        loop
            invariant
                self.sane(),
                self@ == old(self)@,
                old(self).pos() <= self.pos(),
                prog.wf(),
                prog.context.frames() == old(prog).context.frames(),
                prog.context.local_variables@ == old(prog).context.local_variables@,
                prog.context.expressions@.len() >= old(prog).context.expressions@.len(),
                prog.types@.len() >= old(prog).types@.len(),
                prog.functions@ == old(prog).functions@,
                prog.lookup_function@ == old(prog).lookup_function@,
                crate::actions::same_header(*old(prog), *prog),
                left.idx() < prog.context.expressions@.len(),
                unary matches Some(rule) ==> rule_wf(
                    rule,
                    prog.context.expressions@.len() as int,
                ) && rule.expression == left,
            decreases self.tokens@.len() - self.pos,
        {
            match self.peek_rel_op() {
                Some(op) => {
                    self.bump();
                    let right = match self.parse_shift(prog) {
                        Ok(p) => p,
                        Err(err) => {
                            return Err(err);
                        },
                    };
                    left = binary_expression(prog, op, left, right.0);
                    unary = None;
                },
                None => {
                    return Ok((left, unary));
                },
            }
        }
    }

    /// Equality and inequality.
    fn parse_equality(&mut self, prog: &mut Program) -> (r: Result<
        (Handle<Expression>, Option<ExpressionRule>),
        ErrorKind,
    >)
        requires
            old(self).sane(),
            old(prog).wf(),
        ensures
            final(self)@ == old(self)@,
            final(self).sane(),
            old(self).pos() <= final(self).pos(),
            final(prog).wf(),
            final(prog).context.frames() == old(prog).context.frames(),
            final(prog).context.local_variables@ == old(prog).context.local_variables@,
            final(prog).context.expressions@.len() >= old(prog).context.expressions@.len(),
            final(prog).types@.len() >= old(prog).types@.len(),
            final(prog).functions@ == old(prog).functions@,
            final(prog).lookup_function@ == old(prog).lookup_function@,
            crate::actions::same_header(*old(prog), *final(prog)),
            r matches Ok(p) ==> p.0.idx() < final(prog).context.expressions@.len() && (
            p.1 matches Some(rule) ==> rule_wf(
                rule,
                final(prog).context.expressions@.len() as int,
            ) && rule.expression == p.0),
        decreases self.tokens@.len() - self.pos, 7int,
    {
        let first = match self.parse_relational(prog) {
            Ok(p) => p,
            Err(err) => {
                return Err(err);
            },
        };
        let mut left: Handle<Expression> = first.0;
        let mut unary: Option<ExpressionRule> = first.1;
        loop
            invariant
                self.sane(),
                self@ == old(self)@,
                old(self).pos() <= self.pos(),
                prog.wf(),
                prog.context.frames() == old(prog).context.frames(),
                prog.context.local_variables@ == old(prog).context.local_variables@,
                prog.context.expressions@.len() >= old(prog).context.expressions@.len(),
                prog.types@.len() >= old(prog).types@.len(),
                prog.functions@ == old(prog).functions@,
                prog.lookup_function@ == old(prog).lookup_function@,
                crate::actions::same_header(*old(prog), *prog),
                left.idx() < prog.context.expressions@.len(),
                unary matches Some(rule) ==> rule_wf(
                    rule,
                    prog.context.expressions@.len() as int,
                ) && rule.expression == left,
            decreases self.tokens@.len() - self.pos,
        {
            match self.peek_eq_op() {
                Some(op) => {
                    self.bump();
                    let right = match self.parse_relational(prog) {
                        Ok(p) => p,
                        Err(err) => {
                            return Err(err);
                        },
                    };
                    left = binary_expression(prog, op, left, right.0);
                    unary = None;
                },
                None => {
                    return Ok((left, unary));
                },
            }
        }
    }

    /// Bitwise and.
    fn parse_and(&mut self, prog: &mut Program) -> (r: Result<
        (Handle<Expression>, Option<ExpressionRule>),
        ErrorKind,
    >)
        requires
            old(self).sane(),
            old(prog).wf(),
        ensures
            final(self)@ == old(self)@,
            final(self).sane(),
            old(self).pos() <= final(self).pos(),
            final(prog).wf(),
            final(prog).context.frames() == old(prog).context.frames(),
            final(prog).context.local_variables@ == old(prog).context.local_variables@,
            final(prog).context.expressions@.len() >= old(prog).context.expressions@.len(),
            final(prog).types@.len() >= old(prog).types@.len(),
            final(prog).functions@ == old(prog).functions@,
            final(prog).lookup_function@ == old(prog).lookup_function@,
            crate::actions::same_header(*old(prog), *final(prog)),
            r matches Ok(p) ==> p.0.idx() < final(prog).context.expressions@.len() && (
            p.1 matches Some(rule) ==> rule_wf(
                rule,
                final(prog).context.expressions@.len() as int,
            ) && rule.expression == p.0),
        decreases self.tokens@.len() - self.pos, 8int,
    {
        let first = match self.parse_equality(prog) {
            Ok(p) => p,
            Err(err) => {
                return Err(err);
            },
        };
        let mut left: Handle<Expression> = first.0;
        let mut unary: Option<ExpressionRule> = first.1;
        loop
            invariant
                self.sane(),
                self@ == old(self)@,
                old(self).pos() <= self.pos(),
                prog.wf(),
                prog.context.frames() == old(prog).context.frames(),
                prog.context.local_variables@ == old(prog).context.local_variables@,
                prog.context.expressions@.len() >= old(prog).context.expressions@.len(),
                prog.types@.len() >= old(prog).types@.len(),
                prog.functions@ == old(prog).functions@,
                prog.lookup_function@ == old(prog).lookup_function@,
                crate::actions::same_header(*old(prog), *prog),
                left.idx() < prog.context.expressions@.len(),
                unary matches Some(rule) ==> rule_wf(
                    rule,
                    prog.context.expressions@.len() as int,
                ) && rule.expression == left,
            decreases self.tokens@.len() - self.pos,
        {
            if self.peek_ampersand() {
                self.bump();
                let right = match self.parse_equality(prog) {
                    Ok(p) => p,
                    Err(err) => {
                        return Err(err);
                    },
                };
                left = binary_expression(prog, BinaryOperator::And, left, right.0);
                unary = None;
            } else {
                return Ok((left, unary));
            }
        }
    }

    /// Bitwise exclusive or.
    fn parse_exclusive_or(&mut self, prog: &mut Program) -> (r: Result<
        (Handle<Expression>, Option<ExpressionRule>),
        ErrorKind,
    >)
        requires
            old(self).sane(),
            old(prog).wf(),
        ensures
            final(self)@ == old(self)@,
            final(self).sane(),
            old(self).pos() <= final(self).pos(),
            final(prog).wf(),
            final(prog).context.frames() == old(prog).context.frames(),
            final(prog).context.local_variables@ == old(prog).context.local_variables@,
            final(prog).context.expressions@.len() >= old(prog).context.expressions@.len(),
            final(prog).types@.len() >= old(prog).types@.len(),
            final(prog).functions@ == old(prog).functions@,
            final(prog).lookup_function@ == old(prog).lookup_function@,
            crate::actions::same_header(*old(prog), *final(prog)),
            r matches Ok(p) ==> p.0.idx() < final(prog).context.expressions@.len() && (
            p.1 matches Some(rule) ==> rule_wf(
                rule,
                final(prog).context.expressions@.len() as int,
            ) && rule.expression == p.0),
        decreases self.tokens@.len() - self.pos, 9int,
    {
        let first = match self.parse_and(prog) {
            Ok(p) => p,
            Err(err) => {
                return Err(err);
            },
        };
        let mut left: Handle<Expression> = first.0;
        let mut unary: Option<ExpressionRule> = first.1;
        loop
            invariant
                self.sane(),
                self@ == old(self)@,
                old(self).pos() <= self.pos(),
                prog.wf(),
                prog.context.frames() == old(prog).context.frames(),
                prog.context.local_variables@ == old(prog).context.local_variables@,
                prog.context.expressions@.len() >= old(prog).context.expressions@.len(),
                prog.types@.len() >= old(prog).types@.len(),
                prog.functions@ == old(prog).functions@,
                prog.lookup_function@ == old(prog).lookup_function@,
                crate::actions::same_header(*old(prog), *prog),
                left.idx() < prog.context.expressions@.len(),
                unary matches Some(rule) ==> rule_wf(
                    rule,
                    prog.context.expressions@.len() as int,
                ) && rule.expression == left,
            decreases self.tokens@.len() - self.pos,
        {
            if self.peek_caret() {
                self.bump();
                let right = match self.parse_and(prog) {
                    Ok(p) => p,
                    Err(err) => {
                        return Err(err);
                    },
                };
                left = binary_expression(prog, BinaryOperator::ExclusiveOr, left, right.0);
                unary = None;
            } else {
                return Ok((left, unary));
            }
        }
    }

    /// Bitwise inclusive or.
    fn parse_inclusive_or(&mut self, prog: &mut Program) -> (r: Result<
        (Handle<Expression>, Option<ExpressionRule>),
        ErrorKind,
    >)
        requires
            old(self).sane(),
            old(prog).wf(),
        ensures
            final(self)@ == old(self)@,
            final(self).sane(),
            old(self).pos() <= final(self).pos(),
            final(prog).wf(),
            final(prog).context.frames() == old(prog).context.frames(),
            final(prog).context.local_variables@ == old(prog).context.local_variables@,
            final(prog).context.expressions@.len() >= old(prog).context.expressions@.len(),
            final(prog).types@.len() >= old(prog).types@.len(),
            final(prog).functions@ == old(prog).functions@,
            final(prog).lookup_function@ == old(prog).lookup_function@,
            crate::actions::same_header(*old(prog), *final(prog)),
            r matches Ok(p) ==> p.0.idx() < final(prog).context.expressions@.len() && (
            p.1 matches Some(rule) ==> rule_wf(
                rule,
                final(prog).context.expressions@.len() as int,
            ) && rule.expression == p.0),
        decreases self.tokens@.len() - self.pos, 10int,
    {
        let first = match self.parse_exclusive_or(prog) {
            Ok(p) => p,
            Err(err) => {
                return Err(err);
            },
        };
        let mut left: Handle<Expression> = first.0;
        let mut unary: Option<ExpressionRule> = first.1;
        loop
            invariant
                self.sane(),
                self@ == old(self)@,
                old(self).pos() <= self.pos(),
                prog.wf(),
                prog.context.frames() == old(prog).context.frames(),
                prog.context.local_variables@ == old(prog).context.local_variables@,
                prog.context.expressions@.len() >= old(prog).context.expressions@.len(),
                prog.types@.len() >= old(prog).types@.len(),
                prog.functions@ == old(prog).functions@,
                prog.lookup_function@ == old(prog).lookup_function@,
                crate::actions::same_header(*old(prog), *prog),
                left.idx() < prog.context.expressions@.len(),
                unary matches Some(rule) ==> rule_wf(
                    rule,
                    prog.context.expressions@.len() as int,
                ) && rule.expression == left,
            decreases self.tokens@.len() - self.pos,
        {
            if self.peek_vertical_bar() {
                self.bump();
                let right = match self.parse_exclusive_or(prog) {
                    Ok(p) => p,
                    Err(err) => {
                        return Err(err);
                    },
                };
                left = binary_expression(prog, BinaryOperator::InclusiveOr, left, right.0);
                unary = None;
            } else {
                return Ok((left, unary));
            }
        }
    }

    /// Logical and.
    fn parse_logical_and(&mut self, prog: &mut Program) -> (r: Result<
        (Handle<Expression>, Option<ExpressionRule>),
        ErrorKind,
    >)
        requires
            old(self).sane(),
            old(prog).wf(),
        ensures
            final(self)@ == old(self)@,
            final(self).sane(),
            old(self).pos() <= final(self).pos(),
            final(prog).wf(),
            final(prog).context.frames() == old(prog).context.frames(),
            final(prog).context.local_variables@ == old(prog).context.local_variables@,
            final(prog).context.expressions@.len() >= old(prog).context.expressions@.len(),
            final(prog).types@.len() >= old(prog).types@.len(),
            final(prog).functions@ == old(prog).functions@,
            final(prog).lookup_function@ == old(prog).lookup_function@,
            crate::actions::same_header(*old(prog), *final(prog)),
            r matches Ok(p) ==> p.0.idx() < final(prog).context.expressions@.len() && (
            p.1 matches Some(rule) ==> rule_wf(
                rule,
                final(prog).context.expressions@.len() as int,
            ) && rule.expression == p.0),
        decreases self.tokens@.len() - self.pos, 11int,
    {
        let first = match self.parse_inclusive_or(prog) {
            Ok(p) => p,
            Err(err) => {
                return Err(err);
            },
        };
        let mut left: Handle<Expression> = first.0;
        let mut unary: Option<ExpressionRule> = first.1;
        loop
            invariant
                self.sane(),
                self@ == old(self)@,
                old(self).pos() <= self.pos(),
                prog.wf(),
                prog.context.frames() == old(prog).context.frames(),
                prog.context.local_variables@ == old(prog).context.local_variables@,
                prog.context.expressions@.len() >= old(prog).context.expressions@.len(),
                prog.types@.len() >= old(prog).types@.len(),
                prog.functions@ == old(prog).functions@,
                prog.lookup_function@ == old(prog).lookup_function@,
                crate::actions::same_header(*old(prog), *prog),
                left.idx() < prog.context.expressions@.len(),
                unary matches Some(rule) ==> rule_wf(
                    rule,
                    prog.context.expressions@.len() as int,
                ) && rule.expression == left,
            decreases self.tokens@.len() - self.pos,
        {
            if self.peek_and_op() {
                self.bump();
                let right = match self.parse_inclusive_or(prog) {
                    Ok(p) => p,
                    Err(err) => {
                        return Err(err);
                    },
                };
                left = binary_expression(prog, BinaryOperator::LogicalAnd, left, right.0);
                unary = None;
            } else {
                return Ok((left, unary));
            }
        }
    }

    /// Logical exclusive or: recognized, refused after the right operand
    /// parses, as the representation has no tag for it.
    fn parse_logical_xor(&mut self, prog: &mut Program) -> (r: Result<
        (Handle<Expression>, Option<ExpressionRule>),
        ErrorKind,
    >)
        requires
            old(self).sane(),
            old(prog).wf(),
        ensures
            final(self)@ == old(self)@,
            final(self).sane(),
            old(self).pos() <= final(self).pos(),
            final(prog).wf(),
            final(prog).context.frames() == old(prog).context.frames(),
            final(prog).context.local_variables@ == old(prog).context.local_variables@,
            final(prog).context.expressions@.len() >= old(prog).context.expressions@.len(),
            final(prog).types@.len() >= old(prog).types@.len(),
            final(prog).functions@ == old(prog).functions@,
            final(prog).lookup_function@ == old(prog).lookup_function@,
            crate::actions::same_header(*old(prog), *final(prog)),
            r matches Ok(p) ==> p.0.idx() < final(prog).context.expressions@.len() && (
            p.1 matches Some(rule) ==> rule_wf(
                rule,
                final(prog).context.expressions@.len() as int,
            ) && rule.expression == p.0),
        decreases self.tokens@.len() - self.pos, 12int,
    {
        let first = match self.parse_logical_and(prog) {
            Ok(p) => p,
            Err(err) => {
                return Err(err);
            },
        };
        if self.peek_xor_op() {
            self.bump();
            match self.parse_logical_and(prog) {
                Ok(_) => Err(ErrorKind::UnimplementedFeature("logical xor")),
                Err(err) => Err(err),
            }
        } else {
            Ok(first)
        }
    }

    /// Logical or.
    fn parse_logical_or(&mut self, prog: &mut Program) -> (r: Result<
        (Handle<Expression>, Option<ExpressionRule>),
        ErrorKind,
    >)
        requires
            old(self).sane(),
            old(prog).wf(),
        ensures
            final(self)@ == old(self)@,
            final(self).sane(),
            old(self).pos() <= final(self).pos(),
            final(prog).wf(),
            final(prog).context.frames() == old(prog).context.frames(),
            final(prog).context.local_variables@ == old(prog).context.local_variables@,
            final(prog).context.expressions@.len() >= old(prog).context.expressions@.len(),
            final(prog).types@.len() >= old(prog).types@.len(),
            final(prog).functions@ == old(prog).functions@,
            final(prog).lookup_function@ == old(prog).lookup_function@,
            crate::actions::same_header(*old(prog), *final(prog)),
            r matches Ok(p) ==> p.0.idx() < final(prog).context.expressions@.len() && (
            p.1 matches Some(rule) ==> rule_wf(
                rule,
                final(prog).context.expressions@.len() as int,
            ) && rule.expression == p.0),
        decreases self.tokens@.len() - self.pos, 13int,
    {
        let first = match self.parse_logical_xor(prog) {
            Ok(p) => p,
            Err(err) => {
                return Err(err);
            },
        };
        let mut left: Handle<Expression> = first.0;
        let mut unary: Option<ExpressionRule> = first.1;
        loop
            invariant
                self.sane(),
                self@ == old(self)@,
                old(self).pos() <= self.pos(),
                prog.wf(),
                prog.context.frames() == old(prog).context.frames(),
                prog.context.local_variables@ == old(prog).context.local_variables@,
                prog.context.expressions@.len() >= old(prog).context.expressions@.len(),
                prog.types@.len() >= old(prog).types@.len(),
                prog.functions@ == old(prog).functions@,
                prog.lookup_function@ == old(prog).lookup_function@,
                crate::actions::same_header(*old(prog), *prog),
                left.idx() < prog.context.expressions@.len(),
                unary matches Some(rule) ==> rule_wf(
                    rule,
                    prog.context.expressions@.len() as int,
                ) && rule.expression == left,
            decreases self.tokens@.len() - self.pos,
        {
            if self.peek_or_op() {
                self.bump();
                let right = match self.parse_logical_xor(prog) {
                    Ok(p) => p,
                    Err(err) => {
                        return Err(err);
                    },
                };
                left = binary_expression(prog, BinaryOperator::LogicalOr, left, right.0);
                unary = None;
            } else {
                return Ok((left, unary));
            }
        }
    }

    /// A conditional expression: the ternary form is recognized and refused.
    fn parse_conditional(&mut self, prog: &mut Program) -> (r: Result<
        (Handle<Expression>, Option<ExpressionRule>),
        ErrorKind,
    >)
        requires
            old(self).sane(),
            old(prog).wf(),
        ensures
            final(self)@ == old(self)@,
            final(self).sane(),
            old(self).pos() <= final(self).pos(),
            final(prog).wf(),
            final(prog).context.frames() == old(prog).context.frames(),
            final(prog).context.local_variables@ == old(prog).context.local_variables@,
            final(prog).context.expressions@.len() >= old(prog).context.expressions@.len(),
            final(prog).types@.len() >= old(prog).types@.len(),
            final(prog).functions@ == old(prog).functions@,
            final(prog).lookup_function@ == old(prog).lookup_function@,
            crate::actions::same_header(*old(prog), *final(prog)),
            r matches Ok(p) ==> p.0.idx() < final(prog).context.expressions@.len() && (
            p.1 matches Some(rule) ==> rule_wf(
                rule,
                final(prog).context.expressions@.len() as int,
            ) && rule.expression == p.0),
        decreases self.tokens@.len() - self.pos, 14int,
    {
        let first = match self.parse_logical_or(prog) {
            Ok(p) => p,
            Err(err) => {
                return Err(err);
            },
        };
        if self.peek_question() {
            self.bump();
            match self.parse_expression(prog) {
                Ok(_) => {},
                Err(err) => {
                    return Err(err);
                },
            }
            if !self.peek_colon() {
                return Err(self.syntax_error_here());
            }
            self.bump();
            match self.parse_assignment(prog) {
                Ok(_) => Err(ErrorKind::UnimplementedFeature("ternary exp")),
                Err(err) => Err(err),
            }
        } else {
            Ok(first)
        }
    }

    /// An assignment expression. Only plain `=` is translated: the value
    /// side's pending statements run first, then the store, and the target's
    /// own handle is the value.
    fn parse_assignment(&mut self, prog: &mut Program) -> (r: Result<ExpressionRule, ErrorKind>)
        requires
            old(self).sane(),
            old(prog).wf(),
        ensures
            final(self)@ == old(self)@,
            final(self).sane(),
            old(self).pos() <= final(self).pos(),
            final(prog).wf(),
            final(prog).context.frames() == old(prog).context.frames(),
            final(prog).context.local_variables@ == old(prog).context.local_variables@,
            final(prog).context.expressions@.len() >= old(prog).context.expressions@.len(),
            final(prog).types@.len() >= old(prog).types@.len(),
            final(prog).functions@ == old(prog).functions@,
            final(prog).lookup_function@ == old(prog).lookup_function@,
            crate::actions::same_header(*old(prog), *final(prog)),
            r matches Ok(rule) ==> rule_wf(rule, final(prog).context.expressions@.len() as int),
        decreases self.tokens@.len() - self.pos, 15int,
    {
        let first = match self.parse_conditional(prog) {
            Ok(p) => p,
            Err(err) => {
                return Err(err);
            },
        };
        match self.peek_assign_op() {
            None => Ok(ExpressionRule { expression: first.0, statements: Vec::new() }),
            Some(op) => {
                let meta = self.current_meta();
                match first.1 {
                    None => Err(ErrorKind::SyntaxError(Some(meta))),
                    Some(pointer) => {
                        self.bump();
                        let ghost mid = *prog;
                        let ghost pointer_ghost = pointer;
                        let value = match self.parse_assignment(prog) {
                            Ok(v) => v,
                            Err(err) => {
                                return Err(err);
                            },
                        };
                        let ghost value_ghost = value;
                        let res = match assignment_action(op, pointer, value) {
                            Ok(rule) => rule,
                            Err(err) => {
                                return Err(err);
                            },
                        };
                        proof {
                            let ne = prog.context.expressions@.len() as int;
                            crate::ir::lemma_stmts_wf_mono(
                                pointer_ghost.statements@,
                                mid.context.expressions@.len() as int,
                                ne,
                            );
                            assert(res.statements@ == pointer_ghost.statements@
                                + value_ghost.statements@ + seq![
                                Statement::Store {
                                    pointer: pointer_ghost.expression,
                                    value: value_ghost.expression,
                                },
                            ]);
                            assert forall|i: int|
                                0 <= i < res.statements@.len() implies stmt_wf(
                                #[trigger] res.statements@[i],
                                ne,
                            ) by {
                                let np = pointer_ghost.statements@.len() as int;
                                let nv = value_ghost.statements@.len() as int;
                                if i < np {
                                    assert(res.statements@[i] == pointer_ghost.statements@[i]);
                                } else if i < np + nv {
                                    assert(res.statements@[i] == value_ghost.statements@[i - np]);
                                } else {
                                    assert(res.statements@[i] == (Statement::Store {
                                        pointer: pointer_ghost.expression,
                                        value: value_ghost.expression,
                                    }));
                                }
                            }
                        }
                        Ok(res)
                    },
                }
            },
        }
    }

    /// A full expression: comma evaluates the left operand's pending
    /// statements before producing the right operand's value.
    fn parse_expression(&mut self, prog: &mut Program) -> (r: Result<ExpressionRule, ErrorKind>)
        requires
            old(self).sane(),
            old(prog).wf(),
        ensures
            final(self)@ == old(self)@,
            final(self).sane(),
            old(self).pos() <= final(self).pos(),
            final(prog).wf(),
            final(prog).context.frames() == old(prog).context.frames(),
            final(prog).context.local_variables@ == old(prog).context.local_variables@,
            final(prog).context.expressions@.len() >= old(prog).context.expressions@.len(),
            final(prog).types@.len() >= old(prog).types@.len(),
            final(prog).functions@ == old(prog).functions@,
            final(prog).lookup_function@ == old(prog).lookup_function@,
            crate::actions::same_header(*old(prog), *final(prog)),
            r matches Ok(rule) ==> rule_wf(rule, final(prog).context.expressions@.len() as int),
        decreases self.tokens@.len() - self.pos, 16int,
    {
        let mut r = match self.parse_assignment(prog) {
            Ok(rule) => rule,
            Err(err) => {
                return Err(err);
            },
        };
        loop
            invariant
                self.sane(),
                self@ == old(self)@,
                old(self).pos() <= self.pos(),
                prog.wf(),
                prog.context.frames() == old(prog).context.frames(),
                prog.context.local_variables@ == old(prog).context.local_variables@,
                prog.context.expressions@.len() >= old(prog).context.expressions@.len(),
                prog.types@.len() >= old(prog).types@.len(),
                prog.functions@ == old(prog).functions@,
                prog.lookup_function@ == old(prog).lookup_function@,
                crate::actions::same_header(*old(prog), *prog),
                rule_wf(r, prog.context.expressions@.len() as int),
            decreases self.tokens@.len() - self.pos,
        {
            if self.peek_comma() {
                self.bump();
                let ghost mid = *prog;
                let ghost left_ghost = r;
                let ae = match self.parse_assignment(prog) {
                    Ok(rule) => rule,
                    Err(err) => {
                        return Err(err);
                    },
                };
                let ghost ae_ghost = ae;
                r = comma_combine(r, ae);
                proof {
                    let ne = prog.context.expressions@.len() as int;
                    crate::ir::lemma_stmts_wf_mono(
                        left_ghost.statements@,
                        mid.context.expressions@.len() as int,
                        ne,
                    );
                    assert forall|i: int|
                        0 <= i < r.statements@.len() implies stmt_wf(
                        #[trigger] r.statements@[i],
                        ne,
                    ) by {
                        let nl = left_ghost.statements@.len() as int;
                        if i < nl {
                            assert(r.statements@[i] == left_ghost.statements@[i]);
                        } else {
                            assert(r.statements@[i] == ae_ghost.statements@[i - nl]);
                        }
                    }
                }
            } else {
                return Ok(r);
            }
        }
    }

    /// One layout qualifier entry: only `location = <integer>` is
    /// translated.
    fn parse_layout_qualifier_id(&mut self) -> (r: Result<Binding, ErrorKind>)
        requires
            old(self).sane(),
        ensures
            final(self)@ == old(self)@,
            final(self).sane(),
            old(self).pos() <= final(self).pos(),
    {
        let (_meta, id) = match self.take_identifier() {
            Ok(p) => p,
            Err(err) => {
                return Err(err);
            },
        };
        if !self.peek_equal() {
            return Err(self.syntax_error_here());
        }
        self.bump();
        if self.pos >= self.tokens.len() {
            return Err(ErrorKind::SyntaxError(None));
        }
        let ic: Option<i64> = match &self.tokens[self.pos].value {
            TokenValue::IntConstant(i) => Some(*i),
            _ => None,
        };
        match ic {
            Some(i) => {
                self.bump();
                if crate::text::string_eq_literal(&id, "location") {
                    Ok(Binding::Location(#[verifier::truncate] (i as u32)))
                } else {
                    Err(ErrorKind::UnimplementedFeature("non location layout qualifier"))
                }
            },
            None => Err(self.syntax_error_here()),
        }
    }

    /// The run of qualifiers before a type: storage class, layout binding
    /// (last entry winning), interpolation.
    fn parse_type_qualifier(&mut self) -> (r: Result<Vec<TypeQualifier>, ErrorKind>)
        requires
            old(self).sane(),
        ensures
            final(self)@ == old(self)@,
            final(self).sane(),
            old(self).pos() <= final(self).pos(),
            !(old(self).pos() < old(self)@.len() && is_qualifier_value(
                old(self)@[old(self).pos()].value,
            )) ==> r is Ok && final(self).pos() == old(self).pos(),
        decreases self.tokens@.len() - self.pos, 18int,
    {
        if !self.peek_qualifier_token() {
            return Ok(Vec::new());
        }
        let mut quals: Vec<TypeQualifier> = Vec::new();
        loop
            invariant
                self.sane(),
                self@ == old(self)@,
                old(self).pos() <= self.pos(),
                old(self).pos() < old(self)@.len() && is_qualifier_value(
                    old(self)@[old(self).pos()].value,
                ),
            decreases self.tokens@.len() - self.pos,
        {
            if !self.peek_qualifier_token() {
                return Ok(quals);
            }
            let q = match &self.tokens[self.pos].value {
                TokenValue::Const => Qual::Storage(crate::ir::StorageClass::Constant),
                TokenValue::In => Qual::Storage(crate::ir::StorageClass::Input),
                TokenValue::Out => Qual::Storage(crate::ir::StorageClass::Output),
                TokenValue::Interpolation(ip) => Qual::Interp(*ip),
                _ => Qual::LayoutStart,
            };
            match q {
                Qual::Storage(sc) => {
                    self.bump();
                    quals.push(TypeQualifier::StorageClass(sc));
                },
                Qual::Interp(ip) => {
                    self.bump();
                    quals.push(TypeQualifier::Interpolation(ip));
                },
                Qual::LayoutStart => {
                    let ghost arm_start = self.pos();
                    self.bump();
                    if !self.peek_left_paren() {
                        return Err(self.syntax_error_here());
                    }
                    self.bump();
                    let mut b = match self.parse_layout_qualifier_id() {
                        Ok(b) => b,
                        Err(err) => {
                            return Err(err);
                        },
                    };
                    loop
                        invariant
                            self.sane(),
                            self@ == old(self)@,
                            old(self).pos() <= self.pos(),
                            arm_start < self.pos(),
                            old(self).pos() < old(self)@.len() && is_qualifier_value(
                                old(self)@[old(self).pos()].value,
                            ),
                        decreases self.tokens@.len() - self.pos,
                    {
                        if self.peek_comma() {
                            self.bump();
                            b = match self.parse_layout_qualifier_id() {
                                Ok(b2) => b2,
                                Err(err) => {
                                    return Err(err);
                                },
                            };
                        } else {
                            break;
                        }
                    }
                    if !self.peek_right_paren() {
                        return Err(self.syntax_error_here());
                    }
                    self.bump();
                    quals.push(TypeQualifier::Binding(b));
                },
            }
        }
    }

    /// The declarators of one declaration: identifiers with optional
    /// initializers, through the closing semicolon.
    fn parse_declarator_list(&mut self, prog: &mut Program) -> (r: Result<
        Vec<(String, Option<ExpressionRule>)>,
        ErrorKind,
    >)
        requires
            old(self).sane(),
            old(prog).wf(),
        ensures
            final(self)@ == old(self)@,
            final(self).sane(),
            old(self).pos() <= final(self).pos(),
            final(prog).wf(),
            final(prog).context.frames() == old(prog).context.frames(),
            final(prog).context.local_variables@ == old(prog).context.local_variables@,
            final(prog).context.expressions@.len() >= old(prog).context.expressions@.len(),
            final(prog).types@.len() >= old(prog).types@.len(),
            final(prog).functions@ == old(prog).functions@,
            final(prog).lookup_function@ == old(prog).lookup_function@,
            crate::actions::same_header(*old(prog), *final(prog)),
            r matches Ok(ids) ==> crate::actions::ids_wf(
                ids@,
                final(prog).context.expressions@.len() as int,
            ) && final(self).pos() > old(self).pos(),
        decreases self.tokens@.len() - self.pos, 20int,
    {
        let mut ids: Vec<(String, Option<ExpressionRule>)> = Vec::new();
        if self.peek_semicolon() {
            self.bump();
            return Ok(ids);
        }
        loop
            invariant
                self.sane(),
                self@ == old(self)@,
                old(self).pos() <= self.pos(),
                prog.wf(),
                prog.context.frames() == old(prog).context.frames(),
                prog.context.local_variables@ == old(prog).context.local_variables@,
                prog.context.expressions@.len() >= old(prog).context.expressions@.len(),
                prog.types@.len() >= old(prog).types@.len(),
                prog.functions@ == old(prog).functions@,
                prog.lookup_function@ == old(prog).lookup_function@,
                crate::actions::same_header(*old(prog), *prog),
                crate::actions::ids_wf(ids@, prog.context.expressions@.len() as int),
            decreases self.tokens@.len() - self.pos,
        {
            let (_meta, name) = match self.take_identifier() {
                Ok(p) => p,
                Err(err) => {
                    return Err(err);
                },
            };
            let ghost pre = *prog;
            let init: Option<ExpressionRule> = if self.peek_equal() {
                self.bump();
                match self.parse_assignment(prog) {
                    Ok(rule) => Some(rule),
                    Err(err) => {
                        return Err(err);
                    },
                }
            } else {
                None
            };
            let ghost prev_ids = ids@;
            let ghost init_ghost = init;
            ids.push((name, init));
            proof {
                let ne = prog.context.expressions@.len() as int;
                crate::actions::lemma_ids_wf_mono(
                    prev_ids,
                    pre.context.expressions@.len() as int,
                    ne,
                );
                assert forall|i: int|
                    0 <= i < ids@.len() implies match (#[trigger] ids@[i]).1 {
                    Some(r) => rule_wf(r, ne),
                    None => true,
                } by {
                    if i < prev_ids.len() {
                        assert(ids@[i] == prev_ids[i]);
                    } else {
                        assert(ids@[i].1 == init_ghost);
                    }
                }
            }
            if self.peek_comma() {
                self.bump();
            } else if self.peek_semicolon() {
                self.bump();
                return Ok(ids);
            } else {
                return Err(self.syntax_error_here());
            }
        }
    }

    /// A declaration in statement context: local variables come into being
    /// and into scope, and the initializers' side effects become the
    /// statement.
    fn parse_declaration_statement(&mut self, prog: &mut Program) -> (r: Result<
        Statement,
        ErrorKind,
    >)
        requires
            old(self).sane(),
            old(prog).wf(),
        ensures
            final(self)@ == old(self)@,
            final(self).sane(),
            old(self).pos() <= final(self).pos(),
            final(prog).wf(),
            final(prog).context.expressions@.len() >= old(prog).context.expressions@.len(),
            final(prog).types@.len() >= old(prog).types@.len(),
            final(prog).functions@ == old(prog).functions@,
            final(prog).lookup_function@ == old(prog).lookup_function@,
            crate::actions::same_header(*old(prog), *final(prog)),
            r matches Ok(st) ==> stmt_wf(st, final(prog).context.expressions@.len() as int)
                && final(self).pos() > old(self).pos() && final(prog).context.frames().len()
                == old(prog).context.frames().len() && final(prog).context.frames().take(
                old(prog).context.frames().len() - 1,
            ) == old(prog).context.frames().take(old(prog).context.frames().len() - 1),
        decreases self.tokens@.len() - self.pos, 21int,
    {
        let _quals = match self.parse_type_qualifier() {
            Ok(q) => q,
            Err(err) => {
                return Err(err);
            },
        };
        if !self.peek_type_token() {
            return Err(self.syntax_error_here());
        }
        let oty = match self.parse_type_specifier(prog) {
            Ok(t) => t,
            Err(err) => {
                return Err(err);
            },
        };
        let ty = match oty {
            Some(t) => t,
            None => {
                return Err(ErrorKind::SemanticError("Empty type for declaration"));
            },
        };
        let ids = match self.parse_declarator_list(prog) {
            Ok(ids) => ids,
            Err(err) => {
                return Err(err);
            },
        };
        let ghost mid = *prog;
        let ghost gids = ids@;
        let st = match declaration_statement_action(prog, ty, ids, Ghost(gids)) {
            Ok(st) => st,
            Err(err) => {
                return Err(err);
            },
        };
        proof {
            assert(prog.context.frames().take(mid.context.frames().len() - 1) =~= mid.context.frames().take(
                mid.context.frames().len() - 1,
            ));
        }
        Ok(st)
    }

    /// One statement: a braced block with its own scope, a declaration, or
    /// an expression whose pending statements flatten at the semicolon.
    fn parse_statement(&mut self, prog: &mut Program) -> (r: Result<Statement, ErrorKind>)
        requires
            old(self).sane(),
            old(prog).wf(),
        ensures
            final(self)@ == old(self)@,
            final(self).sane(),
            old(self).pos() <= final(self).pos(),
            final(prog).wf(),
            final(prog).context.expressions@.len() >= old(prog).context.expressions@.len(),
            final(prog).types@.len() >= old(prog).types@.len(),
            final(prog).functions@ == old(prog).functions@,
            final(prog).lookup_function@ == old(prog).lookup_function@,
            crate::actions::same_header(*old(prog), *final(prog)),
            r matches Ok(st) ==> stmt_wf(st, final(prog).context.expressions@.len() as int)
                && final(self).pos() > old(self).pos() && final(prog).context.frames().len()
                == old(prog).context.frames().len() && final(prog).context.frames().take(
                old(prog).context.frames().len() - 1,
            ) == old(prog).context.frames().take(old(prog).context.frames().len() - 1),
        decreases self.tokens@.len() - self.pos, 22int,
    {
        if self.peek_left_brace() {
            let cs = match self.parse_compound_statement(prog) {
                Ok(cs) => cs,
                Err(err) => {
                    return Err(err);
                },
            };
            proof {
                assert(prog.context.frames().take(old(prog).context.frames().len() - 1)
                    =~= old(prog).context.frames().take(old(prog).context.frames().len() - 1));
            }
            return Ok(Statement::Block(cs));
        }
        let is_decl = self.peek_qualifier_token() || (self.peek_type_token()
            && !self.peek_second_left_paren());
        if is_decl {
            return self.parse_declaration_statement(prog);
        }
        if self.peek_semicolon() {
            self.bump();
            proof {
                assert(prog.context.frames().take(old(prog).context.frames().len() - 1)
                    =~= old(prog).context.frames().take(old(prog).context.frames().len() - 1));
            }
            return Ok(Statement::Empty);
        }
        let e = match self.parse_expression(prog) {
            Ok(rule) => rule,
            Err(err) => {
                return Err(err);
            },
        };
        if !self.peek_semicolon() {
            return Err(self.syntax_error_here());
        }
        self.bump();
        let ghost e_ghost = e;
        let ExpressionRule { expression: _, statements } = e;
        let st = flatten_statements(statements);
        proof {
            assert(prog.context.frames().take(old(prog).context.frames().len() - 1)
                =~= old(prog).context.frames().take(old(prog).context.frames().len() - 1));
            if e_ghost.statements@.len() >= 2 {
                assert(stmt_wf(st, prog.context.expressions@.len() as int));
            }
        }
        Ok(st)
    }

    /// A braced block that opens a scope on entry and closes it on exit;
    /// an empty pair of braces opens none.
    fn parse_compound_statement(&mut self, prog: &mut Program) -> (r: Result<
        Vec<Statement>,
        ErrorKind,
    >)
        requires
            old(self).sane(),
            old(prog).wf(),
        ensures
            final(self)@ == old(self)@,
            final(self).sane(),
            old(self).pos() <= final(self).pos(),
            final(prog).wf(),
            final(prog).context.expressions@.len() >= old(prog).context.expressions@.len(),
            final(prog).types@.len() >= old(prog).types@.len(),
            final(prog).functions@ == old(prog).functions@,
            final(prog).lookup_function@ == old(prog).lookup_function@,
            crate::actions::same_header(*old(prog), *final(prog)),
            r matches Ok(list) ==> stmts_wf(
                list@,
                final(prog).context.expressions@.len() as int,
            ) && final(self).pos() > old(self).pos() && final(prog).context.frames() == old(prog).context.frames(),
        decreases self.tokens@.len() - self.pos, 20int,
    {
        if !self.peek_left_brace() {
            return Err(self.syntax_error_here());
        }
        self.bump();
        if self.peek_right_brace() {
            self.bump();
            return Ok(Vec::new());
        }
        prog.context.push_scope();
        let ghost entry_frames = old(prog).context.frames();
        let mut list: Vec<Statement> = Vec::new();
        loop
            invariant
                self.sane(),
                self@ == old(self)@,
                old(self).pos() < self.pos(),
                prog.wf(),
                prog.context.expressions@.len() >= old(prog).context.expressions@.len(),
                prog.types@.len() >= old(prog).types@.len(),
                prog.functions@ == old(prog).functions@,
                prog.lookup_function@ == old(prog).lookup_function@,
                crate::actions::same_header(*old(prog), *prog),
                entry_frames == old(prog).context.frames(),
                entry_frames.len() >= 1,
                prog.context.frames().len() == entry_frames.len() + 1,
                prog.context.frames().take(entry_frames.len() as int) == entry_frames,
                stmts_wf(list@, prog.context.expressions@.len() as int),
            decreases self.tokens@.len() - self.pos,
        {
            if self.peek_right_brace() {
                self.bump();
                prog.context.remove_current_scope();
                proof {
                    assert(prog.context.frames() =~= entry_frames);
                }
                return Ok(list);
            }
            if self.at_end() {
                return Err(ErrorKind::SyntaxError(None));
            }
            let ghost pre = *prog;
            let st = match self.parse_statement(prog) {
                Ok(st) => st,
                Err(err) => {
                    return Err(err);
                },
            };
            let ghost prev_list = list@;
            let ghost st_ghost = st;
            list.push(st);
            proof {
                let ne = prog.context.expressions@.len() as int;
                crate::ir::lemma_stmts_wf_mono(
                    prev_list,
                    pre.context.expressions@.len() as int,
                    ne,
                );
                assert forall|i: int| 0 <= i < list@.len() implies stmt_wf(
                    #[trigger] list@[i],
                    ne,
                ) by {
                    if i < prev_list.len() {
                        assert(list@[i] == prev_list[i]);
                    } else {
                        assert(list@[i] == st_ghost);
                    }
                }
                assert(prog.context.frames().take(entry_frames.len() as int)
                    =~= pre.context.frames().take(entry_frames.len() as int));
            }
        }
    }

    /// A braced function body: the same statement list, with no scope of
    /// its own.
    fn parse_compound_no_new_scope(&mut self, prog: &mut Program) -> (r: Result<
        Vec<Statement>,
        ErrorKind,
    >)
        requires
            old(self).sane(),
            old(prog).wf(),
        ensures
            final(self)@ == old(self)@,
            final(self).sane(),
            old(self).pos() <= final(self).pos(),
            final(prog).wf(),
            final(prog).context.expressions@.len() >= old(prog).context.expressions@.len(),
            final(prog).types@.len() >= old(prog).types@.len(),
            final(prog).functions@ == old(prog).functions@,
            final(prog).lookup_function@ == old(prog).lookup_function@,
            crate::actions::same_header(*old(prog), *final(prog)),
            r matches Ok(list) ==> stmts_wf(
                list@,
                final(prog).context.expressions@.len() as int,
            ) && final(self).pos() > old(self).pos(),
            (old(self).pos() + 1 < old(self)@.len() && old(self)@[old(self).pos()].value
                is LeftBrace && old(self)@[old(self).pos() + 1].value is RightBrace) ==> r is Ok
                && final(self).pos() == old(self).pos() + 2,
        decreases self.tokens@.len() - self.pos, 20int,
    {
        if !self.peek_left_brace() {
            return Err(self.syntax_error_here());
        }
        self.bump();
        if self.peek_right_brace() {
            self.bump();
            return Ok(Vec::new());
        }
        let mut list: Vec<Statement> = Vec::new();
        loop
            invariant
                self.sane(),
                self@ == old(self)@,
                old(self).pos() < self.pos(),
                prog.wf(),
                prog.context.expressions@.len() >= old(prog).context.expressions@.len(),
                prog.types@.len() >= old(prog).types@.len(),
                prog.functions@ == old(prog).functions@,
                prog.lookup_function@ == old(prog).lookup_function@,
                crate::actions::same_header(*old(prog), *prog),
                stmts_wf(list@, prog.context.expressions@.len() as int),
                !(old(self).pos() + 1 < old(self)@.len() && old(self)@[old(self).pos()].value
                    is LeftBrace && old(self)@[old(self).pos() + 1].value is RightBrace),
            decreases self.tokens@.len() - self.pos,
        {
            if self.peek_right_brace() {
                self.bump();
                return Ok(list);
            }
            if self.at_end() {
                return Err(ErrorKind::SyntaxError(None));
            }
            let ghost pre = *prog;
            let st = match self.parse_statement(prog) {
                Ok(st) => st,
                Err(err) => {
                    return Err(err);
                },
            };
            let ghost prev_list = list@;
            let ghost st_ghost = st;
            list.push(st);
            proof {
                let ne = prog.context.expressions@.len() as int;
                crate::ir::lemma_stmts_wf_mono(
                    prev_list,
                    pre.context.expressions@.len() as int,
                    ne,
                );
                assert forall|i: int| 0 <= i < list@.len() implies stmt_wf(
                    #[trigger] list@[i],
                    ne,
                ) by {
                    if i < prev_list.len() {
                        assert(list@[i] == prev_list[i]);
                    } else {
                        assert(list@[i] == st_ghost);
                    }
                }
            }
        }
    }

    /// One top-level item: a function definition, or a file-scope
    /// declaration whose identifiers become global variables.
    fn parse_external_declaration(&mut self, prog: &mut Program) -> (r: Result<(), ErrorKind>)
        requires
            old(self).sane(),
            old(prog).wf(),
        ensures
            final(self)@ == old(self)@,
            final(self).sane(),
            old(self).pos() <= final(self).pos(),
            final(prog).wf(),
            crate::actions::same_header(*old(prog), *final(prog)),
            r is Ok ==> final(self).pos() > old(self).pos(),
            minimal_function_at(old(self)@, old(self).pos()) ==> ({
                &&& r is Ok
                &&& final(self).pos() == old(self).pos() + 6
                &&& final(prog).functions@.len() == old(prog).functions@.len() + 1
                &&& old(self)@[old(self).pos() + 1].value matches TokenValue::Identifier(nm)
                    ==> final(prog).lookup_function@.contains_key(nm@)
            }),
        decreases self.tokens@.len() - self.pos, 23int,
    {
        let quals = match self.parse_type_qualifier() {
            Ok(q) => q,
            Err(err) => {
                return Err(err);
            },
        };
        if !self.peek_type_token() {
            return Err(self.syntax_error_here());
        }
        let oty = match self.parse_type_specifier(prog) {
            Ok(t) => t,
            Err(err) => {
                return Err(err);
            },
        };
        if self.peek_identifier() && self.peek_second_left_paren() {
            // A function definition: header, empty parameter list, body.
            let (_meta, name) = match self.take_identifier() {
                Ok(p) => p,
                Err(err) => {
                    return Err(err);
                },
            };
            self.bump();
            if !self.peek_right_paren() {
                return Err(self.syntax_error_here());
            }
            self.bump();
            let ghost gname = name@;
            let f = function_header_action(name, oty, Ghost(gname));
            let body = match self.parse_compound_no_new_scope(prog) {
                Ok(b) => b,
                Err(err) => {
                    return Err(err);
                },
            };
            let ghost gf = f;
            let ghost gbody = body@;
            let g = function_definition_action(prog, f, body, Ghost(gf), Ghost(gbody));
            let ghost gg = g;
            register_function(prog, g, Ghost(gg));
            Ok(())
        } else {
            let ty = match oty {
                Some(t) => t,
                None => {
                    return Err(ErrorKind::SemanticError("Empty type for declaration"));
                },
            };
            let ids = match self.parse_declarator_list(prog) {
                Ok(ids) => ids,
                Err(err) => {
                    return Err(err);
                },
            };
            let ghost gids = ids@;
            match global_declaration_action(prog, quals, ty, ids, Ghost(gids)) {
                Ok(()) => Ok(()),
                Err(err) => Err(err),
            }
        }
    }

    /// The version header: the declared integer must be 440, 450 or 460, and
    /// the optional profile must be `core`.
    fn parse_version_pragma(&mut self, prog: &mut Program) -> (r: Result<(), ErrorKind>)
        requires
            old(self).sane(),
            old(prog).wf(),
        ensures
            final(self)@ == old(self)@,
            final(self).sane(),
            old(self).pos() <= final(self).pos(),
            final(prog).wf(),
            r is Ok ==> ({
                &&& pragma_head(old(self)@, old(self).pos())
                &&& final(prog).version == old(self)@[old(self).pos()
                    + 1].value->IntConstant_0 as u16
                &&& (final(prog).version == 440 || final(prog).version == 450 || final(prog).version == 460)
                &&& final(prog).profile == Profile::Core
                &&& old(self).pos() + 2 <= final(self).pos() <= old(self).pos() + 3
            }),
            (pragma_head(old(self)@, old(self).pos()) && (old(self).pos() + 2 == old(self)@.len() || !(old(self)@[old(self).pos() + 2].value is Identifier))) ==> r is Ok
                && final(self).pos() == old(self).pos() + 2,
            final(prog).functions@ == old(prog).functions@,
            final(prog).lookup_function@ == old(prog).lookup_function@,
    {
        if self.pos >= self.tokens.len() {
            return Err(ErrorKind::SyntaxError(None));
        }
        let is_version = match &self.tokens[self.pos].value {
            TokenValue::Version => true,
            _ => false,
        };
        proof {
            assert(is_version == (self@[self.pos()].value is Version));
        }
        if !is_version {
            return Err(self.syntax_error_here());
        }
        self.bump();
        if self.pos >= self.tokens.len() {
            return Err(ErrorKind::SyntaxError(None));
        }
        let vmeta = self.tokens[self.pos].meta;
        let v: Option<i64> = match &self.tokens[self.pos].value {
            TokenValue::IntConstant(i) => Some(*i),
            _ => None,
        };
        proof {
            assert(match v {
                Some(i) => self@[self.pos()].value == TokenValue::IntConstant(i),
                None => !(self@[self.pos()].value is IntConstant),
            });
        }
        let v = match v {
            Some(v) => v,
            None => {
                return Err(self.syntax_error_here());
            },
        };
        self.bump();
        let p: Option<(TokenMetadata, String)> = if self.peek_identifier() {
            match self.take_identifier() {
                Ok(pair) => Some(pair),
                Err(err) => {
                    return Err(err);
                },
            }
        } else {
            None
        };
        version_action(prog, vmeta, v, p)
    }

    /// Translates the whole token sequence: the version header, then one or
    /// more top-level items, to the end of input. The first failure aborts
    /// the unit; no partial result is valid after one. Success consumes the
    /// whole input, records exactly the version integer the second token
    /// carries, and is owed on every smallest complete unit.
    pub fn run(&mut self, prog: &mut Program) -> (r: Result<(), ErrorKind>)
        requires
            old(self).sane(),
            old(prog).wf(),
        ensures
            final(self)@ == old(self)@,
            final(self).sane(),
            old(self).pos() <= final(self).pos(),
            final(prog).wf(),
            r is Ok ==> ({
                &&& final(self).pos() == old(self)@.len()
                &&& old(self)@.len() >= old(self).pos() + 3
                &&& pragma_head(old(self)@, old(self).pos())
                &&& final(prog).version == old(self)@[old(self).pos()
                    + 1].value->IntConstant_0 as u16
                &&& (final(prog).version == 440 || final(prog).version == 450 || final(prog).version == 460)
                &&& final(prog).profile == Profile::Core
            }),
            minimal_module(old(self)@, old(self).pos()) ==> ({
                &&& r is Ok
                &&& final(prog).functions@.len() == old(prog).functions@.len() + 1
                &&& old(self)@[old(self).pos() + 3].value matches TokenValue::Identifier(nm)
                    ==> final(prog).lookup_function@.contains_key(nm@)
            }),
    {
        let ghost start = old(self).pos();
        let ghost toks = old(self)@;
        match self.parse_version_pragma(prog) {
            Ok(()) => {},
            Err(err) => {
                proof {
                    if minimal_module(toks, start) {
                        assert(!(toks[start + 2].value is Identifier));
                        assert(false);
                    }
                }
                return Err(err);
            },
        }
        let ghost v0 = prog.version;
        let ghost p0 = prog.profile;
        if self.at_end() {
            proof {
                if minimal_module(toks, start) {
                    assert(self.pos() == start + 2);
                    assert(false);
                }
            }
            return Err(ErrorKind::SyntaxError(None));
        }
        loop
            invariant
                self.sane(),
                self@ == toks,
                toks == old(self)@,
                start == old(self).pos(),
                start + 2 <= self.pos(),
                prog.wf(),
                prog.version == v0,
                prog.profile == p0,
                pragma_head(toks, start),
                v0 == toks[start + 1].value->IntConstant_0 as u16,
                v0 == 440 || v0 == 450 || v0 == 460,
                p0 == Profile::Core,
                minimal_module(toks, start) ==> (self.pos() == start + 2 && prog.functions@
                    == old(prog).functions@ && prog.lookup_function@ == old(prog).lookup_function@),
            decreases self.tokens@.len() - self.pos,
        {
            let ghost before = self.pos();
            match self.parse_external_declaration(prog) {
                Ok(()) => {},
                Err(err) => {
                    proof {
                        if minimal_module(toks, start) {
                            assert(minimal_function_at(toks, start + 2));
                        }
                    }
                    return Err(err);
                },
            }
            if self.at_end() {
                return Ok(());
            }
            proof {
                if minimal_module(toks, start) {
                    assert(minimal_function_at(toks, start + 2));
                    assert(self.pos() == start + 8);
                    assert(false);
                }
            }
        }
    }

}

} // verus!

//! The tree-walking evaluator.
//!
//! Evaluation of one node either produces a value, wraps a value in the
//! "returning" signal that `return` raises and the nearest call boundary
//! consumes, or fails with a runtime error. Side effects — printed lines
//! and calls of host-provided natives — are recorded as a sequence of
//! [`Event`]s rather than written anywhere, so the whole evaluator is a
//! function from tree, store and budget to outcome, store and events; the
//! spec function [`eval_s`] is that function, and [`eval`] is proved to
//! agree with it exactly.
//!
//! Evaluation carries a step budget (`fuel`) that bounds loop iterations,
//! call nesting and statement counts; a spent budget surfaces as the
//! distinguished [`RuntimeError::Exhausted`], the analogue of running out
//! of call stack, which the statement loop treats as fatal.

use vstd::prelude::*;

use crate::ast::{ast_view, asts_view, AstType, AstV};
use crate::environment::{
    assign_scopes, define_scopes, lookup_scopes, Environment, Value, ValueV,
};
use crate::text::{chars_lt, int_seq, num_to_string, str_lt};

verus! {

/// A runtime error. `Exhausted` reports a spent evaluation budget; every
/// other variant mirrors one of the language's dynamic-check failures.
#[derive(Debug, PartialEq)]
pub enum RuntimeError {
    /// The operand of a unary operator, or a condition, had the wrong kind.
    OperandType(Operand),
    /// A binary operator's operand pair had mismatched or wrong kinds.
    TwoOperandType(Operand, Operand),
    /// A read or an assignment named an undeclared variable.
    NotFoundVar(String),
    /// A call named something that is not a callable.
    NotFoundFunc(String),
    /// A call's argument count differed from the parameter count.
    NotMatchArgsNum,
    /// A number was divided by zero.
    ZeroDivision,
    /// The evaluation budget ran out.
    Exhausted,
}

/// The outcome of evaluating one node: a plain value, or a value wrapped
/// in the returning signal.
#[derive(Debug, PartialEq)]
pub enum ReturnType {
    Bool(bool),
    Num(i64),
    Void,
    Str(String),
    Return(Box<ReturnType>),
}

pub type Operand = ReturnType;

pub type EvalResult = Result<Operand, RuntimeError>;

/// A side effect the evaluator would have performed: a printed line, or a
/// call of the host-provided native with the given handle.
#[derive(Debug, PartialEq)]
pub enum Event {
    Line(String),
    Native(u64),
}

/// The mathematical shape of an outcome.
pub enum RetV {
    Bool(bool),
    Num(i64),
    Void,
    Str(Seq<char>),
    Ret(Box<RetV>),
}

/// The mathematical shape of a runtime error.
pub enum ErrV {
    OperandType(RetV),
    TwoOperandType(RetV, RetV),
    NotFoundVar(Seq<char>),
    NotFoundFunc(Seq<char>),
    NotMatchArgsNum,
    ZeroDivision,
    Exhausted,
}

/// The mathematical shape of a side effect.
pub enum EventV {
    Line(Seq<char>),
    Native(u64),
}

/// The view of one outcome.
pub open spec fn ret_view(r: ReturnType) -> RetV
    decreases r,
{
    match r {
        ReturnType::Bool(b) => RetV::Bool(b),
        ReturnType::Num(n) => RetV::Num(n),
        ReturnType::Void => RetV::Void,
        ReturnType::Str(s) => RetV::Str(s@),
        ReturnType::Return(b) => RetV::Ret(Box::new(ret_view(*b))),
    }
}

impl View for ReturnType {
    type V = RetV;

    open spec fn view(&self) -> RetV {
        ret_view(*self)
    }
}

impl View for RuntimeError {
    type V = ErrV;

    open spec fn view(&self) -> ErrV {
        match self {
            RuntimeError::OperandType(o) => ErrV::OperandType(o@),
            RuntimeError::TwoOperandType(l, r) => ErrV::TwoOperandType(l@, r@),
            RuntimeError::NotFoundVar(n) => ErrV::NotFoundVar(n@),
            RuntimeError::NotFoundFunc(n) => ErrV::NotFoundFunc(n@),
            RuntimeError::NotMatchArgsNum => ErrV::NotMatchArgsNum,
            RuntimeError::ZeroDivision => ErrV::ZeroDivision,
            RuntimeError::Exhausted => ErrV::Exhausted,
        }
    }
}

impl View for Event {
    type V = EventV;

    open spec fn view(&self) -> EventV {
        match self {
            Event::Line(s) => EventV::Line(s@),
            Event::Native(h) => EventV::Native(*h),
        }
    }
}

/// The views of a recorded event list, in order.
pub open spec fn events_view(es: Seq<Event>) -> Seq<EventV> {
    Seq::new(
        es.len(),
        |i: int|
            if 0 <= i < es.len() {
                es[i]@
            } else {
                EventV::Native(0)
            },
    )
}

/// The view of an evaluation result.
pub open spec fn res_view(r: EvalResult) -> Result<RetV, ErrV> {
    match r {
        Ok(v) => Ok(v@),
        Err(e) => Err(e@),
    }
}

/// The store and the recorded events, as one evaluation state.
pub struct EState {
    pub scopes: Seq<Map<Seq<char>, ValueV>>,
    pub events: Seq<EventV>,
}

/// What one evaluation step yields: an outcome and the state after it.
pub struct Step {
    pub res: Result<RetV, ErrV>,
    pub st: EState,
}

// ---------------------------------------------------------------------
// Operand kinds. The checks look through the returning signal, as the
// evaluator's dynamic checks do.

pub open spec fn is_num_v(o: RetV) -> bool
    decreases o,
{
    match o {
        RetV::Num(_) => true,
        RetV::Ret(b) => is_num_v(*b),
        _ => false,
    }
}

pub open spec fn is_str_v(o: RetV) -> bool
    decreases o,
{
    match o {
        RetV::Str(_) => true,
        RetV::Ret(b) => is_str_v(*b),
        _ => false,
    }
}

pub open spec fn is_bool_v(o: RetV) -> bool
    decreases o,
{
    match o {
        RetV::Bool(_) => true,
        RetV::Ret(b) => is_bool_v(*b),
        _ => false,
    }
}

pub open spec fn is_void_v(o: RetV) -> bool
    decreases o,
{
    match o {
        RetV::Void => true,
        RetV::Ret(b) => is_void_v(*b),
        _ => false,
    }
}

pub open spec fn as_num_v(o: RetV) -> i64
    decreases o,
{
    match o {
        RetV::Num(n) => n,
        RetV::Ret(b) => as_num_v(*b),
        _ => 0,
    }
}

pub open spec fn as_str_v(o: RetV) -> Seq<char>
    decreases o,
{
    match o {
        RetV::Str(s) => s,
        RetV::Ret(b) => as_str_v(*b),
        _ => Seq::empty(),
    }
}

pub open spec fn as_bool_v(o: RetV) -> bool
    decreases o,
{
    match o {
        RetV::Bool(b) => b,
        RetV::Ret(b) => as_bool_v(*b),
        _ => false,
    }
}

/// The value an outcome stores into the variable store: the returning
/// wrapper is stripped and no-value becomes the nil binding.
pub open spec fn to_value_v(o: RetV) -> ValueV
    decreases o,
{
    match o {
        RetV::Num(n) => ValueV::Num(n),
        RetV::Str(s) => ValueV::Str(s),
        RetV::Bool(b) => ValueV::Bool(b),
        RetV::Void => ValueV::Nil,
        RetV::Ret(b) => to_value_v(*b),
    }
}

// ---------------------------------------------------------------------
// The operators, on outcome views.

/// Division that truncates toward zero; the one overflowing case wraps.
pub open spec fn div_wrap(a: i64, b: i64) -> i64
    recommends
        b != 0,
{
    match a.checked_div(b) {
        Some(q) => q,
        None => i64::MIN,
    }
}

/// `+` adds two numbers (wrapping on overflow) or concatenates two texts.
pub open spec fn plus_v(l: RetV, r: RetV) -> Result<RetV, ErrV> {
    if is_num_v(l) && is_num_v(r) {
        Ok(RetV::Num(as_num_v(l).wrapping_add(as_num_v(r))))
    } else if is_str_v(l) && is_str_v(r) {
        Ok(RetV::Str(as_str_v(l) + as_str_v(r)))
    } else {
        Err(ErrV::TwoOperandType(l, r))
    }
}

pub open spec fn minus_v(l: RetV, r: RetV) -> Result<RetV, ErrV> {
    if is_num_v(l) && is_num_v(r) {
        Ok(RetV::Num(as_num_v(l).wrapping_sub(as_num_v(r))))
    } else {
        Err(ErrV::TwoOperandType(l, r))
    }
}

pub open spec fn mul_v(l: RetV, r: RetV) -> Result<RetV, ErrV> {
    if is_num_v(l) && is_num_v(r) {
        Ok(RetV::Num(as_num_v(l).wrapping_mul(as_num_v(r))))
    } else {
        Err(ErrV::TwoOperandType(l, r))
    }
}

pub open spec fn div_v(l: RetV, r: RetV) -> Result<RetV, ErrV> {
    if is_num_v(l) && is_num_v(r) {
        if as_num_v(r) == 0 {
            Err(ErrV::ZeroDivision)
        } else {
            Ok(RetV::Num(div_wrap(as_num_v(l), as_num_v(r))))
        }
    } else {
        Err(ErrV::TwoOperandType(l, r))
    }
}

/// Arithmetic negation of a number (wrapping at the smallest number).
pub open spec fn unary_minus_v(o: RetV) -> Result<RetV, ErrV> {
    if is_num_v(o) {
        Ok(RetV::Num((0 as i64).wrapping_sub(as_num_v(o))))
    } else {
        Err(ErrV::OperandType(o))
    }
}

/// Logical not, by truthiness: only no-value and false are falsy.
pub open spec fn bang_v(o: RetV) -> Result<RetV, ErrV> {
    if is_bool_v(o) {
        Ok(RetV::Bool(!as_bool_v(o)))
    } else if is_void_v(o) {
        Ok(RetV::Bool(true))
    } else {
        Ok(RetV::Bool(false))
    }
}

/// Structural equality of a same-kind pair.
pub open spec fn equal_equal_v(l: RetV, r: RetV) -> Result<RetV, ErrV> {
    if is_num_v(l) && is_num_v(r) {
        Ok(RetV::Bool(as_num_v(l) == as_num_v(r)))
    } else if is_str_v(l) && is_str_v(r) {
        Ok(RetV::Bool(as_str_v(l) == as_str_v(r)))
    } else if is_bool_v(l) && is_bool_v(r) {
        Ok(RetV::Bool(as_bool_v(l) == as_bool_v(r)))
    } else if is_void_v(l) && is_void_v(r) {
        Ok(RetV::Bool(true))
    } else {
        Err(ErrV::TwoOperandType(l, r))
    }
}

/// `!=` is the negation of `==` and fails where `==` fails.
pub open spec fn bang_equal_v(l: RetV, r: RetV) -> Result<RetV, ErrV> {
    match equal_equal_v(l, r) {
        Ok(v) => Ok(RetV::Bool(!as_bool_v(v))),
        Err(e) => Err(e),
    }
}

/// `>` on numbers, texts (lexicographic) or booleans (false before true).
pub open spec fn greater_v(l: RetV, r: RetV) -> Result<RetV, ErrV> {
    if is_num_v(l) && is_num_v(r) {
        Ok(RetV::Bool(as_num_v(l) > as_num_v(r)))
    } else if is_str_v(l) && is_str_v(r) {
        Ok(RetV::Bool(chars_lt(as_str_v(r), as_str_v(l))))
    } else if is_bool_v(l) && is_bool_v(r) {
        Ok(RetV::Bool(as_bool_v(l) && !as_bool_v(r)))
    } else {
        Err(ErrV::TwoOperandType(l, r))
    }
}

pub open spec fn greater_equal_v(l: RetV, r: RetV) -> Result<RetV, ErrV> {
    if is_num_v(l) && is_num_v(r) {
        Ok(RetV::Bool(as_num_v(l) >= as_num_v(r)))
    } else if is_str_v(l) && is_str_v(r) {
        Ok(RetV::Bool(!chars_lt(as_str_v(l), as_str_v(r))))
    } else if is_bool_v(l) && is_bool_v(r) {
        Ok(RetV::Bool(as_bool_v(l) || !as_bool_v(r)))
    } else {
        Err(ErrV::TwoOperandType(l, r))
    }
}

pub open spec fn less_v(l: RetV, r: RetV) -> Result<RetV, ErrV> {
    if is_num_v(l) && is_num_v(r) {
        Ok(RetV::Bool(as_num_v(l) < as_num_v(r)))
    } else if is_str_v(l) && is_str_v(r) {
        Ok(RetV::Bool(chars_lt(as_str_v(l), as_str_v(r))))
    } else if is_bool_v(l) && is_bool_v(r) {
        Ok(RetV::Bool(!as_bool_v(l) && as_bool_v(r)))
    } else {
        Err(ErrV::TwoOperandType(l, r))
    }
}

pub open spec fn less_equal_v(l: RetV, r: RetV) -> Result<RetV, ErrV> {
    if is_num_v(l) && is_num_v(r) {
        Ok(RetV::Bool(as_num_v(l) <= as_num_v(r)))
    } else if is_str_v(l) && is_str_v(r) {
        Ok(RetV::Bool(!chars_lt(as_str_v(r), as_str_v(l))))
    } else if is_bool_v(l) && is_bool_v(r) {
        Ok(RetV::Bool(!as_bool_v(l) || as_bool_v(r)))
    } else {
        Err(ErrV::TwoOperandType(l, r))
    }
}

/// Eager logical or: both operands are always evaluated first.
pub open spec fn or_v(l: RetV, r: RetV) -> Result<RetV, ErrV> {
    if is_bool_v(l) && is_bool_v(r) {
        Ok(RetV::Bool(as_bool_v(l) || as_bool_v(r)))
    } else {
        Err(ErrV::TwoOperandType(l, r))
    }
}

/// Eager logical and: both operands are always evaluated first.
pub open spec fn and_v(l: RetV, r: RetV) -> Result<RetV, ErrV> {
    if is_bool_v(l) && is_bool_v(r) {
        Ok(RetV::Bool(as_bool_v(l) && as_bool_v(r)))
    } else {
        Err(ErrV::TwoOperandType(l, r))
    }
}

/// The line `print` writes for an outcome: numbers, texts and booleans
/// print; no-value prints nothing.
pub open spec fn render_v(o: RetV) -> Option<Seq<char>> {
    if is_num_v(o) {
        Some(int_seq(as_num_v(o) as int))
    } else if is_str_v(o) {
        Some(as_str_v(o))
    } else if is_bool_v(o) {
        Some(
            if as_bool_v(o) {
                "true"@
            } else {
                "false"@
            },
        )
    } else {
        None
    }
}

// ---------------------------------------------------------------------
// The definitional interpreter. Every recursive call spends one unit of
// fuel, so the budget bounds nesting depth, statement counts, loop
// iterations and call depth at once.

/// Evaluates one node.
pub open spec fn eval_s(ast: AstV, st: EState, fuel: nat) -> Step
    decreases fuel,
{
    if fuel == 0 {
        Step { res: Err(ErrV::Exhausted), st }
    } else {
        let f = (fuel - 1) as nat;
        match ast {
            AstV::True => Step { res: Ok(RetV::Bool(true)), st },
            AstV::False => Step { res: Ok(RetV::Bool(false)), st },
            AstV::Nil => Step { res: Ok(RetV::Void), st },
            AstV::Number(n) => Step { res: Ok(RetV::Num(n)), st },
            AstV::String(s) => Step { res: Ok(RetV::Str(s)), st },
            AstV::Grouping(e) => eval_s(*e, st, f),
            AstV::Bang(e) => {
                let s1 = eval_s(*e, st, f);
                match s1.res {
                    Ok(v) => Step { res: bang_v(v), st: s1.st },
                    Err(_) => s1,
                }
            },
            AstV::UnaryMinus(e) => {
                let s1 = eval_s(*e, st, f);
                match s1.res {
                    Ok(v) => Step { res: unary_minus_v(v), st: s1.st },
                    Err(_) => s1,
                }
            },
            AstV::Plus(l, r) => eval_binop_s(*l, *r, st, f, BinOp::Plus),
            AstV::Minus(l, r) => eval_binop_s(*l, *r, st, f, BinOp::Minus),
            AstV::Mul(l, r) => eval_binop_s(*l, *r, st, f, BinOp::Mul),
            AstV::Div(l, r) => eval_binop_s(*l, *r, st, f, BinOp::Div),
            AstV::EqualEqual(l, r) => eval_binop_s(*l, *r, st, f, BinOp::EqualEqual),
            AstV::BangEqual(l, r) => eval_binop_s(*l, *r, st, f, BinOp::BangEqual),
            AstV::Greater(l, r) => eval_binop_s(*l, *r, st, f, BinOp::Greater),
            AstV::GreaterEqual(l, r) => eval_binop_s(*l, *r, st, f, BinOp::GreaterEqual),
            AstV::Less(l, r) => eval_binop_s(*l, *r, st, f, BinOp::Less),
            AstV::LessEqual(l, r) => eval_binop_s(*l, *r, st, f, BinOp::LessEqual),
            AstV::Or(l, r) => eval_binop_s(*l, *r, st, f, BinOp::Or),
            AstV::And(l, r) => eval_binop_s(*l, *r, st, f, BinOp::And),
            AstV::Print(e) => {
                let s1 = eval_s(*e, st, f);
                match s1.res {
                    Ok(v) => match render_v(v) {
                        Some(line) => Step {
                            res: Ok(RetV::Void),
                            st: EState {
                                scopes: s1.st.scopes,
                                events: s1.st.events.push(EventV::Line(line)),
                            },
                        },
                        None => Step { res: Ok(RetV::Void), st: s1.st },
                    },
                    Err(_) => s1,
                }
            },
            AstV::Var(n, e) => {
                let s1 = eval_s(*e, st, f);
                match s1.res {
                    Ok(v) => Step {
                        res: Ok(RetV::Void),
                        st: EState {
                            scopes: define_scopes(s1.st.scopes, n, to_value_v(v)),
                            events: s1.st.events,
                        },
                    },
                    Err(_) => s1,
                }
            },
            AstV::Identifier(n) => Step { res: identifier_v(n, st.scopes), st },
            AstV::Assign(n, e) => {
                let s1 = eval_s(*e, st, f);
                match s1.res {
                    Ok(v) => {
                        if lookup_scopes(s1.st.scopes, n) is Some {
                            Step {
                                res: Ok(RetV::Void),
                                st: EState {
                                    scopes: assign_scopes(s1.st.scopes, n, to_value_v(v)),
                                    events: s1.st.events,
                                },
                            }
                        } else {
                            Step { res: Err(ErrV::NotFoundVar(n)), st: s1.st }
                        }
                    },
                    Err(_) => s1,
                }
            },
            AstV::Block(stmts) => {
                let inner = eval_stmts_s(
                    stmts,
                    0,
                    EState { scopes: st.scopes.push(Map::empty()), events: st.events },
                    f,
                );
                Step {
                    res: inner.res,
                    st: EState {
                        scopes: inner.st.scopes.drop_last(),
                        events: inner.st.events,
                    },
                }
            },
            AstV::If(c, t, e) => {
                let s1 = eval_s(*c, st, f);
                match s1.res {
                    Ok(v) => {
                        if is_bool_v(v) {
                            if as_bool_v(v) {
                                eval_s(*t, s1.st, f)
                            } else {
                                eval_s(*e, s1.st, f)
                            }
                        } else {
                            Step { res: Err(ErrV::OperandType(v)), st: s1.st }
                        }
                    },
                    Err(_) => s1,
                }
            },
            AstV::While(c, b) => {
                let s1 = eval_s(*c, st, f);
                match s1.res {
                    Ok(v) => {
                        if is_bool_v(v) {
                            if as_bool_v(v) {
                                let s2 = eval_s(*b, s1.st, f);
                                match s2.res {
                                    Ok(bv) => {
                                        if bv is Ret {
                                            s2
                                        } else {
                                            eval_s(AstV::While(c, b), s2.st, f)
                                        }
                                    },
                                    Err(_) => s2,
                                }
                            } else {
                                Step { res: Ok(RetV::Void), st: s1.st }
                            }
                        } else {
                            Step { res: Err(ErrV::OperandType(v)), st: s1.st }
                        }
                    },
                    Err(_) => s1,
                }
            },
            AstV::Return(e) => {
                let s1 = eval_s(*e, st, f);
                match s1.res {
                    Ok(v) => Step { res: Ok(RetV::Ret(Box::new(v))), st: s1.st },
                    Err(_) => s1,
                }
            },
            AstV::Fun(n, ps, b) => Step {
                res: Ok(RetV::Void),
                st: EState {
                    scopes: define_scopes(st.scopes, n, ValueV::Fun(ps, *b)),
                    events: st.events,
                },
            },
            AstV::Call(callee, args) => {
                let a = eval_args_s(args, 0, st, f);
                match a.res {
                    Ok(vals) => match lookup_scopes(a.st.scopes, callee) {
                        Some(ValueV::Fun(params, body)) => call_fun_s(
                            params,
                            body,
                            vals,
                            a.st,
                            f,
                        ),
                        Some(ValueV::Native(h)) => Step {
                            res: Ok(RetV::Void),
                            st: EState {
                                scopes: a.st.scopes,
                                events: a.st.events.push(EventV::Native(h)),
                            },
                        },
                        _ => Step { res: Err(ErrV::NotFoundFunc(callee)), st: a.st },
                    },
                    Err(e) => Step { res: Err(e), st: a.st },
                }
            },
        }
    }
}

/// Which binary operator a pair of evaluated operands feeds.
pub enum BinOp {
    Plus,
    Minus,
    Mul,
    Div,
    EqualEqual,
    BangEqual,
    Greater,
    GreaterEqual,
    Less,
    LessEqual,
    Or,
    And,
}

/// The meaning of one binary operator on evaluated operands.
pub open spec fn apply_binop_v(op: BinOp, l: RetV, r: RetV) -> Result<RetV, ErrV> {
    match op {
        BinOp::Plus => plus_v(l, r),
        BinOp::Minus => minus_v(l, r),
        BinOp::Mul => mul_v(l, r),
        BinOp::Div => div_v(l, r),
        BinOp::EqualEqual => equal_equal_v(l, r),
        BinOp::BangEqual => bang_equal_v(l, r),
        BinOp::Greater => greater_v(l, r),
        BinOp::GreaterEqual => greater_equal_v(l, r),
        BinOp::Less => less_v(l, r),
        BinOp::LessEqual => less_equal_v(l, r),
        BinOp::Or => or_v(l, r),
        BinOp::And => and_v(l, r),
    }
}

/// Evaluates the left operand, then the right, then applies the operator;
/// both operands are always evaluated (no short-circuiting).
pub open spec fn eval_binop_s(l: AstV, r: AstV, st: EState, fuel: nat, op: BinOp) -> Step
    decreases fuel,
{
    if fuel == 0 {
        Step { res: Err(ErrV::Exhausted), st }
    } else {
        let s1 = eval_s(l, st, (fuel - 1) as nat);
        match s1.res {
            Ok(lv) => {
                let s2 = eval_s(r, s1.st, (fuel - 1) as nat);
                match s2.res {
                    Ok(rv) => Step { res: apply_binop_v(op, lv, rv), st: s2.st },
                    Err(_) => s2,
                }
            },
            Err(_) => s1,
        }
    }
}

/// What reading a name yields: its plain value, nil for a nil binding,
/// and the undefined-variable error for an unbound name or one that names
/// a callable.
pub open spec fn identifier_v(
    n: Seq<char>,
    scopes: Seq<Map<Seq<char>, ValueV>>,
) -> Result<RetV, ErrV> {
    match lookup_scopes(scopes, n) {
        Some(ValueV::Num(x)) => Ok(RetV::Num(x)),
        Some(ValueV::Str(s)) => Ok(RetV::Str(s)),
        Some(ValueV::Bool(b)) => Ok(RetV::Bool(b)),
        Some(ValueV::Nil) => Ok(RetV::Void),
        _ => Err(ErrV::NotFoundVar(n)),
    }
}

/// Evaluates the statements of a block from index `i` on. The first
/// returning signal or error stops the walk; otherwise the block's result
/// is the last statement's (no-value for an empty block).
pub open spec fn eval_stmts_s(stmts: Seq<AstV>, i: int, st: EState, fuel: nat) -> Step
    decreases fuel,
{
    if fuel == 0 {
        Step { res: Err(ErrV::Exhausted), st }
    } else if i < 0 || i >= stmts.len() {
        Step { res: Ok(RetV::Void), st }
    } else {
        let s1 = eval_s(stmts[i], st, (fuel - 1) as nat);
        match s1.res {
            Ok(v) => {
                if v is Ret {
                    s1
                } else if i == stmts.len() - 1 {
                    s1
                } else {
                    eval_stmts_s(stmts, i + 1, s1.st, (fuel - 1) as nat)
                }
            },
            Err(_) => s1,
        }
    }
}

/// What one argument-list evaluation yields.
pub struct ArgsStep {
    pub res: Result<Seq<RetV>, ErrV>,
    pub st: EState,
}

/// Evaluates the argument expressions from index `i` on, left to right.
pub open spec fn eval_args_s(args: Seq<AstV>, i: int, st: EState, fuel: nat) -> ArgsStep
    decreases fuel,
{
    if fuel == 0 {
        ArgsStep { res: Err(ErrV::Exhausted), st }
    } else if i < 0 || i >= args.len() {
        ArgsStep { res: Ok(Seq::empty()), st }
    } else {
        let s1 = eval_s(args[i], st, (fuel - 1) as nat);
        match s1.res {
            Ok(v) => {
                let rest = eval_args_s(args, i + 1, s1.st, (fuel - 1) as nat);
                match rest.res {
                    Ok(vs) => ArgsStep { res: Ok(seq![v] + vs), st: rest.st },
                    Err(_) => rest,
                }
            },
            Err(e) => ArgsStep { res: Err(e), st: s1.st },
        }
    }
}

/// Binds each parameter name to the matching argument value in the
/// innermost scope; a parameter that is not a bare name binds nothing.
pub open spec fn bind_params_s(
    params: Seq<AstV>,
    vals: Seq<RetV>,
    i: int,
    scopes: Seq<Map<Seq<char>, ValueV>>,
) -> Seq<Map<Seq<char>, ValueV>>
    decreases params.len() - i,
{
    if i < 0 || i >= params.len() {
        scopes
    } else {
        let sc = match params[i] {
            AstV::Identifier(n) => define_scopes(scopes, n, to_value_v(vals[i])),
            _ => scopes,
        };
        bind_params_s(params, vals, i + 1, sc)
    }
}

/// Calls a user-defined function: checks the arity, binds the parameters
/// in a fresh scope, evaluates the body there, discards the scope, and
/// unwraps the returning signal — it never leaks past the call boundary.
pub open spec fn call_fun_s(
    params: Seq<AstV>,
    body: AstV,
    vals: Seq<RetV>,
    st: EState,
    fuel: nat,
) -> Step
    decreases fuel,
{
    if fuel == 0 {
        Step { res: Err(ErrV::Exhausted), st }
    } else if params.len() != vals.len() {
        Step { res: Err(ErrV::NotMatchArgsNum), st }
    } else {
        let scopes1 = bind_params_s(params, vals, 0, st.scopes.push(Map::empty()));
        let s1 = eval_s(
            body,
            EState { scopes: scopes1, events: st.events },
            (fuel - 1) as nat,
        );
        let res = match s1.res {
            Ok(RetV::Ret(v)) => Ok(*v),
            other => other,
        };
        Step {
            res,
            st: EState { scopes: s1.st.scopes.drop_last(), events: s1.st.events },
        }
    }
}

} // verus!

verus! {

impl Clone for ReturnType {
    /// A copy with the same view as the original.
    fn clone(&self) -> (r: Self)
        ensures
            r@ == self@,
        decreases self,
    {
        match self {
            ReturnType::Bool(b) => ReturnType::Bool(*b),
            ReturnType::Num(n) => ReturnType::Num(*n),
            ReturnType::Void => ReturnType::Void,
            ReturnType::Str(s) => ReturnType::Str(s.clone()),
            ReturnType::Return(b) => ReturnType::Return(Box::new((**b).clone())),
        }
    }
}

/// Appending one event appends its view.
proof fn lemma_events_push(es: Seq<Event>, e: Event)
    ensures
        events_view(es.push(e)) == events_view(es).push(e@),
{
    assert(events_view(es.push(e)) =~= events_view(es).push(e@));
}

/// The views of an outcome list, in order.
pub open spec fn rets_view(vs: Seq<ReturnType>) -> Seq<RetV> {
    Seq::new(
        vs.len(),
        |i: int|
            if 0 <= i < vs.len() {
                vs[i]@
            } else {
                RetV::Void
            },
    )
}

// ---------------------------------------------------------------------
// Dynamic kind checks and projections. They look through the returning
// signal, as every dynamic check of the evaluator does.

/// Whether the outcome carries text.
pub fn one_type_check_string(operand: &Operand) -> (r: bool)
    ensures
        r == is_str_v(operand@),
    decreases operand,
{
    match operand {
        ReturnType::Return(o) => one_type_check_string(o),
        ReturnType::Str(_) => true,
        _ => false,
    }
}

/// Whether the outcome carries a number.
pub fn one_type_check_number(operand: &Operand) -> (r: bool)
    ensures
        r == is_num_v(operand@),
    decreases operand,
{
    match operand {
        ReturnType::Return(o) => one_type_check_number(o),
        ReturnType::Num(_) => true,
        _ => false,
    }
}

/// Whether the outcome carries a boolean.
pub fn one_type_check_bool(operand: &Operand) -> (r: bool)
    ensures
        r == is_bool_v(operand@),
    decreases operand,
{
    match operand {
        ReturnType::Return(o) => one_type_check_bool(o),
        ReturnType::Bool(_) => true,
        _ => false,
    }
}

/// Whether the outcome carries no value.
pub fn one_type_check_void(operand: &Operand) -> (r: bool)
    ensures
        r == is_void_v(operand@),
    decreases operand,
{
    match operand {
        ReturnType::Return(o) => one_type_check_void(o),
        ReturnType::Void => true,
        _ => false,
    }
}

fn type_check_string(left: &Operand, right: &Operand) -> (r: bool)
    ensures
        r == (is_str_v(left@) && is_str_v(right@)),
{
    one_type_check_string(left) && one_type_check_string(right)
}

fn type_check_number(left: &Operand, right: &Operand) -> (r: bool)
    ensures
        r == (is_num_v(left@) && is_num_v(right@)),
{
    one_type_check_number(left) && one_type_check_number(right)
}

fn type_check_bool(left: &Operand, right: &Operand) -> (r: bool)
    ensures
        r == (is_bool_v(left@) && is_bool_v(right@)),
{
    one_type_check_bool(left) && one_type_check_bool(right)
}

/// The text an outcome carries.
pub fn downcast_string(operand: Operand) -> (r: String)
    requires
        is_str_v(operand@),
    ensures
        r@ == as_str_v(operand@),
    decreases operand,
{
    match operand {
        ReturnType::Str(s) => s,
        ReturnType::Return(b) => downcast_string(*b),
        _ => unreached(),
    }
}

/// The number an outcome carries.
pub fn downcast_number(operand: Operand) -> (r: i64)
    requires
        is_num_v(operand@),
    ensures
        r == as_num_v(operand@),
    decreases operand,
{
    match operand {
        ReturnType::Num(n) => n,
        ReturnType::Return(b) => downcast_number(*b),
        _ => unreached(),
    }
}

/// The boolean an outcome carries.
pub fn downcast_bool(operand: Operand) -> (r: bool)
    requires
        is_bool_v(operand@),
    ensures
        r == as_bool_v(operand@),
    decreases operand,
{
    match operand {
        ReturnType::Bool(b) => b,
        ReturnType::Return(b) => downcast_bool(*b),
        _ => unreached(),
    }
}

/// The value an outcome stores into the variable store.
fn to_env_value(operand: Operand) -> (r: Value)
    ensures
        r@ == to_value_v(operand@),
    decreases operand,
{
    match operand {
        ReturnType::Num(n) => Value::Num(n),
        ReturnType::Str(s) => Value::Str(s),
        ReturnType::Bool(b) => Value::Bool(b),
        ReturnType::Void => Value::Nil,
        ReturnType::Return(b) => to_env_value(*b),
    }
}

// ---------------------------------------------------------------------
// The operators.

fn plus(left: Operand, right: Operand) -> (r: EvalResult)
    ensures
        res_view(r) == plus_v(left@, right@),
{
    if type_check_number(&left, &right) {
        Ok(ReturnType::Num(downcast_number(left).wrapping_add(downcast_number(right))))
    } else if type_check_string(&left, &right) {
        let l = downcast_string(left);
        let rs = downcast_string(right);
        Ok(ReturnType::Str(l.concat(rs.as_str())))
    } else {
        Err(RuntimeError::TwoOperandType(left, right))
    }
}

fn minus(left: Operand, right: Operand) -> (r: EvalResult)
    ensures
        res_view(r) == minus_v(left@, right@),
{
    if type_check_number(&left, &right) {
        Ok(ReturnType::Num(downcast_number(left).wrapping_sub(downcast_number(right))))
    } else {
        Err(RuntimeError::TwoOperandType(left, right))
    }
}

fn mul(left: Operand, right: Operand) -> (r: EvalResult)
    ensures
        res_view(r) == mul_v(left@, right@),
{
    if type_check_number(&left, &right) {
        Ok(ReturnType::Num(downcast_number(left).wrapping_mul(downcast_number(right))))
    } else {
        Err(RuntimeError::TwoOperandType(left, right))
    }
}

fn div(left: Operand, right: Operand) -> (r: EvalResult)
    ensures
        res_view(r) == div_v(left@, right@),
{
    if type_check_number(&left, &right) {
        let l = downcast_number(left);
        let rn = downcast_number(right);
        if rn == 0 {
            Err(RuntimeError::ZeroDivision)
        } else {
            match l.checked_div(rn) {
                Some(q) => Ok(ReturnType::Num(q)),
                None => Ok(ReturnType::Num(i64::MIN)),
            }
        }
    } else {
        Err(RuntimeError::TwoOperandType(left, right))
    }
}

fn unary_minus(operand: Operand) -> (r: EvalResult)
    ensures
        res_view(r) == unary_minus_v(operand@),
{
    if one_type_check_number(&operand) {
        Ok(ReturnType::Num((0 as i64).wrapping_sub(downcast_number(operand))))
    } else {
        Err(RuntimeError::OperandType(operand))
    }
}

fn bang(operand: Operand) -> (r: EvalResult)
    ensures
        res_view(r) == bang_v(operand@),
{
    if one_type_check_bool(&operand) {
        Ok(ReturnType::Bool(!downcast_bool(operand)))
    } else if one_type_check_void(&operand) {
        Ok(ReturnType::Bool(true))
    } else {
        Ok(ReturnType::Bool(false))
    }
}

fn equal_equal(left: Operand, right: Operand) -> (r: EvalResult)
    ensures
        res_view(r) == equal_equal_v(left@, right@),
{
    if type_check_number(&left, &right) {
        Ok(ReturnType::Bool(downcast_number(left) == downcast_number(right)))
    } else if type_check_string(&left, &right) {
        let l = downcast_string(left);
        let rs = downcast_string(right);
        Ok(ReturnType::Bool(l == rs))
    } else if type_check_bool(&left, &right) {
        Ok(ReturnType::Bool(downcast_bool(left) == downcast_bool(right)))
    } else if one_type_check_void(&left) && one_type_check_void(&right) {
        Ok(ReturnType::Bool(true))
    } else {
        Err(RuntimeError::TwoOperandType(left, right))
    }
}

fn bang_equal(left: Operand, right: Operand) -> (r: EvalResult)
    ensures
        res_view(r) == bang_equal_v(left@, right@),
{
    match equal_equal(left, right) {
        Ok(v) => Ok(ReturnType::Bool(!downcast_bool(v))),
        Err(e) => Err(e),
    }
}

fn greater(left: Operand, right: Operand) -> (r: EvalResult)
    ensures
        res_view(r) == greater_v(left@, right@),
{
    if type_check_number(&left, &right) {
        Ok(ReturnType::Bool(downcast_number(left) > downcast_number(right)))
    } else if type_check_string(&left, &right) {
        let l = downcast_string(left);
        let rs = downcast_string(right);
        Ok(ReturnType::Bool(str_lt(rs.as_str(), l.as_str())))
    } else if type_check_bool(&left, &right) {
        let lb = downcast_bool(left);
        let rb = downcast_bool(right);
        Ok(ReturnType::Bool(lb && !rb))
    } else {
        Err(RuntimeError::TwoOperandType(left, right))
    }
}

fn greater_equal(left: Operand, right: Operand) -> (r: EvalResult)
    ensures
        res_view(r) == greater_equal_v(left@, right@),
{
    if type_check_number(&left, &right) {
        Ok(ReturnType::Bool(downcast_number(left) >= downcast_number(right)))
    } else if type_check_string(&left, &right) {
        let l = downcast_string(left);
        let rs = downcast_string(right);
        Ok(ReturnType::Bool(!str_lt(l.as_str(), rs.as_str())))
    } else if type_check_bool(&left, &right) {
        let lb = downcast_bool(left);
        let rb = downcast_bool(right);
        Ok(ReturnType::Bool(lb || !rb))
    } else {
        Err(RuntimeError::TwoOperandType(left, right))
    }
}

fn less(left: Operand, right: Operand) -> (r: EvalResult)
    ensures
        res_view(r) == less_v(left@, right@),
{
    if type_check_number(&left, &right) {
        Ok(ReturnType::Bool(downcast_number(left) < downcast_number(right)))
    } else if type_check_string(&left, &right) {
        let l = downcast_string(left);
        let rs = downcast_string(right);
        Ok(ReturnType::Bool(str_lt(l.as_str(), rs.as_str())))
    } else if type_check_bool(&left, &right) {
        let lb = downcast_bool(left);
        let rb = downcast_bool(right);
        Ok(ReturnType::Bool(!lb && rb))
    } else {
        Err(RuntimeError::TwoOperandType(left, right))
    }
}

fn less_equal(left: Operand, right: Operand) -> (r: EvalResult)
    ensures
        res_view(r) == less_equal_v(left@, right@),
{
    if type_check_number(&left, &right) {
        Ok(ReturnType::Bool(downcast_number(left) <= downcast_number(right)))
    } else if type_check_string(&left, &right) {
        let l = downcast_string(left);
        let rs = downcast_string(right);
        Ok(ReturnType::Bool(!str_lt(rs.as_str(), l.as_str())))
    } else if type_check_bool(&left, &right) {
        let lb = downcast_bool(left);
        let rb = downcast_bool(right);
        Ok(ReturnType::Bool(!lb || rb))
    } else {
        Err(RuntimeError::TwoOperandType(left, right))
    }
}

fn or_eval(left: Operand, right: Operand) -> (r: EvalResult)
    ensures
        res_view(r) == or_v(left@, right@),
{
    if type_check_bool(&left, &right) {
        let l = downcast_bool(left);
        let rb = downcast_bool(right);
        Ok(ReturnType::Bool(l || rb))
    } else {
        Err(RuntimeError::TwoOperandType(left, right))
    }
}

fn and_eval(left: Operand, right: Operand) -> (r: EvalResult)
    ensures
        res_view(r) == and_v(left@, right@),
{
    if type_check_bool(&left, &right) {
        let l = downcast_bool(left);
        let rb = downcast_bool(right);
        Ok(ReturnType::Bool(l && rb))
    } else {
        Err(RuntimeError::TwoOperandType(left, right))
    }
}

/// Applies one binary operator to a pair of evaluated operands.
fn apply_binop(op: BinOp, left: Operand, right: Operand) -> (r: EvalResult)
    ensures
        res_view(r) == apply_binop_v(op, left@, right@),
{
    match op {
        BinOp::Plus => plus(left, right),
        BinOp::Minus => minus(left, right),
        BinOp::Mul => crate::eval::mul(left, right),
        BinOp::Div => div(left, right),
        BinOp::EqualEqual => equal_equal(left, right),
        BinOp::BangEqual => bang_equal(left, right),
        BinOp::Greater => greater(left, right),
        BinOp::GreaterEqual => greater_equal(left, right),
        BinOp::Less => less(left, right),
        BinOp::LessEqual => less_equal(left, right),
        BinOp::Or => or_eval(left, right),
        BinOp::And => and_eval(left, right),
    }
}

/// The line a `print` of this outcome writes: numbers, texts and booleans
/// render; anything else prints nothing.
pub fn print(result: Operand) -> (r: Option<String>)
    ensures
        match r {
            Some(s) => render_v(result@) == Some(s@),
            None => render_v(result@) is None,
        },
{
    if one_type_check_number(&result) {
        Some(num_to_string(downcast_number(result)))
    } else if one_type_check_string(&result) {
        Some(downcast_string(result))
    } else if one_type_check_bool(&result) {
        if downcast_bool(result) {
            Some(String::from_str("true"))
        } else {
            Some(String::from_str("false"))
        }
    } else {
        None
    }
}

} // verus!

verus! {

/// What reading a name yields: its plain value, nil for a nil binding,
/// and the undefined-variable error for an unbound name or one that
/// names a callable.
fn identifier(name: &String, env: &Environment) -> (r: EvalResult)
    requires
        env.wf(),
    ensures
        res_view(r) == identifier_v(name@, env@),
{
    match env.get(name) {
        Some(val) => match val {
            Value::Num(n) => Ok(ReturnType::Num(*n)),
            Value::Str(s) => Ok(ReturnType::Str(s.clone())),
            Value::Bool(b) => Ok(ReturnType::Bool(*b)),
            Value::Nil => Ok(ReturnType::Void),
            _ => Err(RuntimeError::NotFoundVar(name.clone())),
        },
        None => Err(RuntimeError::NotFoundVar(name.clone())),
    }
}

/// Evaluates one node against the store, recording side effects in
/// `events`. Agrees exactly with [`eval_s`] on the node's view: same
/// outcome, same store, same events, for every input and every budget.
#[verifier::rlimit(100)]
pub fn eval(ast: &AstType, env: &mut Environment, events: &mut Vec<Event>, fuel: u64) -> (r:
    EvalResult)
    requires
        old(env).wf(),
    ensures
        final(env).wf(),
        final(env)@.len() == old(env)@.len(),
        ({
            let s = eval_s(
                ast@,
                EState { scopes: old(env)@, events: events_view(old(events)@) },
                fuel as nat,
            );
            &&& final(env)@ == s.st.scopes
            &&& events_view(final(events)@) == s.st.events
            &&& res_view(r) == s.res
        }),
    decreases fuel,
{
    if fuel == 0 {
        return Err(RuntimeError::Exhausted);
    }
    match ast {
        AstType::True => Ok(ReturnType::Bool(true)),
        AstType::False => Ok(ReturnType::Bool(false)),
        AstType::Nil => Ok(ReturnType::Void),
        AstType::Number(n) => Ok(ReturnType::Num(*n)),
        AstType::String(s) => Ok(ReturnType::Str(s.clone())),
        AstType::Grouping(e) => eval(e, env, events, fuel - 1),
        AstType::Bang(e) => match eval(e, env, events, fuel - 1) {
            Ok(v) => bang(v),
            Err(er) => Err(er),
        },
        AstType::UnaryMinus(e) => match eval(e, env, events, fuel - 1) {
            Ok(v) => unary_minus(v),
            Err(er) => Err(er),
        },
        AstType::Plus(l, r) => eval_binop(l, r, env, events, fuel - 1, BinOp::Plus),
        AstType::Minus(l, r) => eval_binop(l, r, env, events, fuel - 1, BinOp::Minus),
        AstType::Mul(l, r) => eval_binop(l, r, env, events, fuel - 1, BinOp::Mul),
        AstType::Div(l, r) => eval_binop(l, r, env, events, fuel - 1, BinOp::Div),
        AstType::EqualEqual(l, r) => eval_binop(l, r, env, events, fuel - 1, BinOp::EqualEqual),
        AstType::BangEqual(l, r) => eval_binop(l, r, env, events, fuel - 1, BinOp::BangEqual),
        AstType::Greater(l, r) => eval_binop(l, r, env, events, fuel - 1, BinOp::Greater),
        AstType::GreaterEqual(l, r) => eval_binop(
            l,
            r,
            env,
            events,
            fuel - 1,
            BinOp::GreaterEqual,
        ),
        AstType::Less(l, r) => eval_binop(l, r, env, events, fuel - 1, BinOp::Less),
        AstType::LessEqual(l, r) => eval_binop(l, r, env, events, fuel - 1, BinOp::LessEqual),
        AstType::Or(l, r) => eval_binop(l, r, env, events, fuel - 1, BinOp::Or),
        AstType::And(l, r) => eval_binop(l, r, env, events, fuel - 1, BinOp::And),
        AstType::Print(e) => match eval(e, env, events, fuel - 1) {
            Ok(v) => {
                match print(v) {
                    Some(line) => {
                        let ghost evs = events@;
                        events.push(Event::Line(line));
                        proof {
                            lemma_events_push(evs, Event::Line(line));
                        }
                    },
                    None => {},
                }
                Ok(ReturnType::Void)
            },
            Err(er) => Err(er),
        },
        AstType::Var(name, e) => match eval(e, env, events, fuel - 1) {
            Ok(v) => {
                let _ = env.define(name.clone(), to_env_value(v));
                Ok(ReturnType::Void)
            },
            Err(er) => Err(er),
        },
        AstType::Identifier(name) => identifier(name, env),
        AstType::Assign(name, e) => match eval(e, env, events, fuel - 1) {
            Ok(v) => {
                let present = env.get(name).is_some();
                if present {
                    let _ = env.push(name.clone(), to_env_value(v));
                    Ok(ReturnType::Void)
                } else {
                    Err(RuntimeError::NotFoundVar(name.clone()))
                }
            },
            Err(er) => Err(er),
        },
        AstType::Block(stmts) => {
            env.push_scope();
            let r1 = eval_stmts(stmts, 0, env, events, fuel - 1);
            env.pop_scope();
            r1
        },
        AstType::If(c, t, e) => match eval(c, env, events, fuel - 1) {
            Ok(v) => {
                if one_type_check_bool(&v) {
                    if downcast_bool(v) {
                        eval(t, env, events, fuel - 1)
                    } else {
                        eval(e, env, events, fuel - 1)
                    }
                } else {
                    Err(RuntimeError::OperandType(v))
                }
            },
            Err(er) => Err(er),
        },
        AstType::While(c, b) => {
            let ghost orig = eval_s(
                ast@,
                EState { scopes: env@, events: events_view(events@) },
                fuel as nat,
            );
            let mut fuel_left = fuel;
            loop
                invariant
                    env.wf(),
                    fuel_left <= fuel,
                    env@.len() == old(env)@.len(),
                    eval_s(
                        AstV::While(Box::new((**c)@), Box::new((**b)@)),
                        EState { scopes: env@, events: events_view(events@) },
                        fuel_left as nat,
                    ) == orig,
                decreases fuel_left,
            {
                if fuel_left == 0 {
                    return Err(RuntimeError::Exhausted);
                }
                match eval(c, env, events, fuel_left - 1) {
                    Ok(v) => {
                        if one_type_check_bool(&v) {
                            if downcast_bool(v) {
                                match eval(b, env, events, fuel_left - 1) {
                                    Ok(bv) => {
                                        if matches!(bv, ReturnType::Return(_)) {
                                            return Ok(bv);
                                        }
                                    },
                                    Err(er) => {
                                        return Err(er);
                                    },
                                }
                                fuel_left = fuel_left - 1;
                            } else {
                                return Ok(ReturnType::Void);
                            }
                        } else {
                            return Err(RuntimeError::OperandType(v));
                        }
                    },
                    Err(er) => {
                        return Err(er);
                    },
                }
            }
        },
        AstType::Return(e) => match eval(e, env, events, fuel - 1) {
            Ok(v) => Ok(ReturnType::Return(Box::new(v))),
            Err(er) => Err(er),
        },
        AstType::Fun(name, params, body) => {
            let _ = env.define(
                name.clone(),
                Value::UserFunc(crate::ast::clone_ast_vec(params), (**body).clone()),
            );
            Ok(ReturnType::Void)
        },
        AstType::Call(callee, arguments) => {
            let vals = match eval_args(arguments, 0, env, events, fuel - 1) {
                Ok(vs) => vs,
                Err(er) => {
                    return Err(er);
                },
            };
            let ps: Vec<AstType>;
            let bd: AstType;
            match env.get(callee) {
                Some(Value::UserFunc(params, body)) => {
                    ps = crate::ast::clone_ast_vec(params);
                    bd = body.clone();
                },
                Some(Value::NativeFunc(h)) => {
                    let handle = *h;
                    let ghost evs = events@;
                    let ghost ev = Event::Native(handle);
                    events.push(Event::Native(handle));
                    proof {
                        lemma_events_push(evs, ev);
                    }
                    return Ok(ReturnType::Void);
                },
                Some(_) => {
                    return Err(RuntimeError::NotFoundFunc(callee.clone()));
                },
                None => {
                    return Err(RuntimeError::NotFoundFunc(callee.clone()));
                },
            }
            call_fun(&ps, &bd, &vals, env, events, fuel - 1)
        },
    }
}

/// Evaluates the left operand, then the right, then applies the
/// operator; both operands are always evaluated.
fn eval_binop(
    l: &AstType,
    r: &AstType,
    env: &mut Environment,
    events: &mut Vec<Event>,
    fuel: u64,
    op: BinOp,
) -> (res: EvalResult)
    requires
        old(env).wf(),
    ensures
        final(env).wf(),
        final(env)@.len() == old(env)@.len(),
        ({
            let s = eval_binop_s(
                l@,
                r@,
                EState { scopes: old(env)@, events: events_view(old(events)@) },
                fuel as nat,
                op,
            );
            &&& final(env)@ == s.st.scopes
            &&& events_view(final(events)@) == s.st.events
            &&& res_view(res) == s.res
        }),
    decreases fuel,
{
    if fuel == 0 {
        return Err(RuntimeError::Exhausted);
    }
    let lv = match eval(l, env, events, fuel - 1) {
        Ok(v) => v,
        Err(e) => {
            return Err(e);
        },
    };
    let rv = match eval(r, env, events, fuel - 1) {
        Ok(v) => v,
        Err(e) => {
            return Err(e);
        },
    };
    apply_binop(op, lv, rv)
}

/// Evaluates the statements of a block from index `i` on; the first
/// returning signal or error stops the walk.
fn eval_stmts(
    stmts: &Vec<AstType>,
    i: usize,
    env: &mut Environment,
    events: &mut Vec<Event>,
    fuel: u64,
) -> (r: EvalResult)
    requires
        old(env).wf(),
    ensures
        final(env).wf(),
        final(env)@.len() == old(env)@.len(),
        ({
            let s = eval_stmts_s(
                asts_view(stmts@),
                i as int,
                EState { scopes: old(env)@, events: events_view(old(events)@) },
                fuel as nat,
            );
            &&& final(env)@ == s.st.scopes
            &&& events_view(final(events)@) == s.st.events
            &&& res_view(r) == s.res
        }),
    decreases fuel,
{
    if fuel == 0 {
        return Err(RuntimeError::Exhausted);
    }
    if i >= stmts.len() {
        return Ok(ReturnType::Void);
    }
    match eval(&stmts[i], env, events, fuel - 1) {
        Ok(v) => {
            if matches!(v, ReturnType::Return(_)) {
                Ok(v)
            } else if i == stmts.len() - 1 {
                Ok(v)
            } else {
                eval_stmts(stmts, i + 1, env, events, fuel - 1)
            }
        },
        Err(e) => Err(e),
    }
}

/// Evaluates the argument expressions from index `i` on, left to right.
fn eval_args(
    args: &Vec<AstType>,
    i: usize,
    env: &mut Environment,
    events: &mut Vec<Event>,
    fuel: u64,
) -> (r: Result<Vec<ReturnType>, RuntimeError>)
    requires
        old(env).wf(),
    ensures
        final(env).wf(),
        final(env)@.len() == old(env)@.len(),
        ({
            let s = eval_args_s(
                asts_view(args@),
                i as int,
                EState { scopes: old(env)@, events: events_view(old(events)@) },
                fuel as nat,
            );
            &&& final(env)@ == s.st.scopes
            &&& events_view(final(events)@) == s.st.events
            &&& match r {
                Ok(vs) => s.res == Ok::<Seq<RetV>, ErrV>(rets_view(vs@)),
                Err(e) => s.res == Err::<Seq<RetV>, ErrV>(e@),
            }
        }),
    decreases fuel,
{
    if fuel == 0 {
        return Err(RuntimeError::Exhausted);
    }
    if i >= args.len() {
        let empty: Vec<ReturnType> = Vec::new();
        proof {
            assert(rets_view(empty@) =~= Seq::<RetV>::empty());
        }
        return Ok(empty);
    }
    match eval(&args[i], env, events, fuel - 1) {
        Ok(v) => match eval_args(args, i + 1, env, events, fuel - 1) {
            Ok(mut vs) => {
                let ghost tail = vs@;
                let ghost head = v@;
                vs.insert(0, v);
                proof {
                    assert(rets_view(vs@) =~= seq![head] + rets_view(tail));
                }
                Ok(vs)
            },
            Err(e) => Err(e),
        },
        Err(e) => Err(e),
    }
}

/// Binds each parameter name to the matching argument value in the
/// innermost scope; a parameter that is not a bare name binds nothing.
fn bind_params(
    params: &Vec<AstType>,
    vals: &Vec<ReturnType>,
    i: usize,
    env: &mut Environment,
)
    requires
        old(env).wf(),
        params@.len() == vals@.len(),
    ensures
        final(env).wf(),
        final(env)@.len() == old(env)@.len(),
        final(env)@ == bind_params_s(
            asts_view(params@),
            rets_view(vals@),
            i as int,
            old(env)@,
        ),
    decreases params@.len() - i,
{
    if i >= params.len() {
        return;
    }
    match &params[i] {
        AstType::Identifier(n) => {
            let _ = env.define(n.clone(), to_env_value(vals[i].clone()));
        },
        _ => {},
    }
    bind_params(params, vals, i + 1, env);
}

/// Calls a user-defined function: checks the arity, binds the parameters
/// in a fresh scope, evaluates the body there, discards the scope, and
/// unwraps the returning signal — it never leaks past the call boundary.
fn call_fun(
    params: &Vec<AstType>,
    body: &AstType,
    vals: &Vec<ReturnType>,
    env: &mut Environment,
    events: &mut Vec<Event>,
    fuel: u64,
) -> (r: EvalResult)
    requires
        old(env).wf(),
    ensures
        final(env).wf(),
        final(env)@.len() == old(env)@.len(),
        ({
            let s = call_fun_s(
                asts_view(params@),
                body@,
                rets_view(vals@),
                EState { scopes: old(env)@, events: events_view(old(events)@) },
                fuel as nat,
            );
            &&& final(env)@ == s.st.scopes
            &&& events_view(final(events)@) == s.st.events
            &&& res_view(r) == s.res
        }),
    decreases fuel,
{
    if fuel == 0 {
        return Err(RuntimeError::Exhausted);
    }
    if params.len() != vals.len() {
        return Err(RuntimeError::NotMatchArgsNum);
    }
    env.push_scope();
    bind_params(params, vals, 0, env);
    let r1 = eval(body, env, events, fuel - 1);
    env.pop_scope();
    match r1 {
        Ok(ReturnType::Return(v)) => Ok(*v),
        other => other,
    }
}

} // verus!

verus! {

/// How an error message names the kind an operand carried, mirroring the
/// order of the dynamic checks.
pub open spec fn kind_name_v(o: RetV) -> Seq<char> {
    if is_str_v(o) {
        "Some(\"String\")"@
    } else if is_num_v(o) {
        "Some(\"number\")"@
    } else if is_bool_v(o) {
        "Some(\"bool\")"@
    } else {
        "None"@
    }
}

/// The rendered description of a runtime error.
pub open spec fn err_render_v(e: ErrV) -> Seq<char> {
    match e {
        ErrV::OperandType(o) => "invalid type: "@ + kind_name_v(o),
        ErrV::TwoOperandType(l, r) => "invalid type: left="@ + kind_name_v(l) + " right="@
            + kind_name_v(r),
        ErrV::NotFoundVar(n) => "Could not found variable: \""@ + n + "\""@,
        ErrV::NotFoundFunc(n) => "Could not found function: \""@ + n + "\""@,
        ErrV::NotMatchArgsNum => "Could not match Argument Length"@,
        ErrV::ZeroDivision => "Division by zero"@,
        ErrV::Exhausted => "Evaluation budget exhausted"@,
    }
}

/// The kind an operand carried, as the error message names it.
fn kind_name(o: &Operand) -> (r: &'static str)
    ensures
        r@ == kind_name_v(o@),
{
    if one_type_check_string(o) {
        "Some(\"String\")"
    } else if one_type_check_number(o) {
        "Some(\"number\")"
    } else if one_type_check_bool(o) {
        "Some(\"bool\")"
    } else {
        "None"
    }
}

impl RuntimeError {
    /// The rendered description of this error.
    pub fn print(&self) -> (r: String)
        ensures
            r@ == err_render_v(self@),
    {
        match self {
            RuntimeError::OperandType(o) => {
                let mut s = String::from_str("invalid type: ");
                s.append(kind_name(o));
                s
            },
            RuntimeError::TwoOperandType(l, r) => {
                let mut s = String::from_str("invalid type: left=");
                s.append(kind_name(l));
                s.append(" right=");
                s.append(kind_name(r));
                s
            },
            RuntimeError::NotFoundVar(n) => {
                let mut s = String::from_str("Could not found variable: \"");
                s.append(n.as_str());
                s.append("\"");
                s
            },
            RuntimeError::NotFoundFunc(n) => {
                let mut s = String::from_str("Could not found function: \"");
                s.append(n.as_str());
                s.append("\"");
                s
            },
            RuntimeError::NotMatchArgsNum => String::from_str("Could not match Argument Length"),
            RuntimeError::ZeroDivision => String::from_str("Division by zero"),
            RuntimeError::Exhausted => String::from_str("Evaluation budget exhausted"),
        }
    }
}

/// Runs the top-level statements from index `i` on: each statement's
/// non-void result prints, a runtime error prints its description and
/// evaluation proceeds with the next statement, and a spent budget stops
/// the run after reporting itself.
pub open spec fn run_s(stmts: Seq<AstV>, i: int, st: EState, fuel: nat) -> EState
    decreases stmts.len() - i,
{
    if i < 0 || i >= stmts.len() {
        st
    } else {
        let s1 = eval_s(stmts[i], st, fuel);
        match s1.res {
            Ok(v) => {
                let st2 = match render_v(v) {
                    Some(line) => EState {
                        scopes: s1.st.scopes,
                        events: s1.st.events.push(EventV::Line(line)),
                    },
                    None => s1.st,
                };
                run_s(stmts, i + 1, st2, fuel)
            },
            Err(e) => {
                let st2 = EState {
                    scopes: s1.st.scopes,
                    events: s1.st.events.push(EventV::Line(err_render_v(e))),
                };
                if e is Exhausted {
                    st2
                } else {
                    run_s(stmts, i + 1, st2, fuel)
                }
            },
        }
    }
}

/// Runs a parsed program: each top-level statement is evaluated with the
/// given budget, its result or its error description is recorded, and a
/// failure in one statement does not block the next. Agrees exactly with
/// [`run_s`].
pub fn run_program(
    stmts: &Vec<AstType>,
    env: &mut Environment,
    events: &mut Vec<Event>,
    fuel: u64,
)
    requires
        old(env).wf(),
    ensures
        final(env).wf(),
        ({
            let st2 = run_s(
                asts_view(stmts@),
                0,
                EState { scopes: old(env)@, events: events_view(old(events)@) },
                fuel as nat,
            );
            &&& final(env)@ == st2.scopes
            &&& events_view(final(events)@) == st2.events
        }),
{
    let ghost st0 = EState { scopes: env@, events: events_view(events@) };
    let n = stmts.len();
    let mut i: usize = 0;
    while i < n
        invariant
            env.wf(),
            n == stmts@.len(),
            i <= n,
            run_s(
                asts_view(stmts@),
                i as int,
                EState { scopes: env@, events: events_view(events@) },
                fuel as nat,
            ) == run_s(asts_view(stmts@), 0, st0, fuel as nat),
        decreases n - i,
    {
        match eval(&stmts[i], env, events, fuel) {
            Ok(result) => match print(result) {
                Some(line) => {
                    let ghost evs = events@;
                    events.push(Event::Line(line));
                    proof {
                        lemma_events_push(evs, Event::Line(line));
                    }
                },
                None => {},
            },
            Err(e) => {
                let fatal = matches!(e, RuntimeError::Exhausted);
                let line = e.print();
                let ghost evs = events@;
                events.push(Event::Line(line));
                proof {
                    lemma_events_push(evs, Event::Line(line));
                }
                if fatal {
                    return;
                }
            },
        }
        i += 1;
    }
}

} // verus!

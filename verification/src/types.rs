//! Core data of the language: runtime faults, operators, tokens, the
//! statement tree, runtime values, the input/output ports, and the
//! mathematical models that the contracts of the whole crate speak over.

use vstd::prelude::*;

use crate::ir::{code_model, InstrS, IR};

verus! {

/// A fatal fault. Every fault aborts the run that raised it; there is no
/// recovery layer. The variants name the five fault families of the
/// toolchain plus the arithmetic faults of the value model and the
/// explicit step budget of the virtual machine.
#[derive(Clone, Copy, PartialEq, Eq, Structural, Debug)]
pub enum Fault {
    /// Malformed or unexpected token sequence while tokenizing or parsing.
    Syntax,
    /// `Load` or `Exec` of a name absent from the environment.
    UnboundName,
    /// An opcode applied to an incompatible combination of value tags.
    TypeMismatch,
    /// Popping from an empty operand stack, or a `Case` whose pattern list
    /// is longer than the stack.
    StackUnderflow,
    /// A jump or case target inconsistent with the instruction count.
    ShapeInvariant,
    /// An output port refused a delivered value.
    Rejected,
    /// Overflowing arithmetic, or division or remainder by zero.
    Arithmetic,
    /// The step budget handed to the virtual machine ran out.
    StepLimit,
}

/// An arithmetic or boolean operator.
#[derive(Clone, Copy, PartialEq, Eq, Structural, Debug)]
pub enum ActionV {
    Not,
    And,
    Or,
    Add,
    Sub,
    Div,
    Mul,
    Mod,
}

/// A comparison operator.
#[derive(Clone, Copy, PartialEq, Eq, Structural, Debug)]
pub enum ComparsionV {
    Equal,
    Less,
    Greater,
    NotEqual,
    LessOrEqual,
    GreaterOrEqual,
}

/// The kind of a block: `Evaluate` runs its statements in order for their
/// effects; `Draft` and `Storage` produce a value (the sole statement's
/// value, or a tuple of every statement's value).
#[derive(Clone, Copy, PartialEq, Eq, Structural, Debug)]
pub enum BlockV {
    Evaluate,
    Draft,
    Storage,
}

/// A runtime value of the virtual machine.
#[derive(Debug)]
pub enum VarV {
    Tuple(Vec<VarV>),
    Procedure(Vec<IR>),
    Num(isize),
    Bool(bool),
}

/// Mathematical model of a runtime value.
pub enum ValS {
    Num(isize),
    Bool(bool),
    Tuple(Seq<ValS>),
    Procedure(Seq<InstrS>),
}

/// The model of a runtime value: numbers and booleans map to themselves,
/// tuples map elementwise, and a procedure maps to the model of its code.
pub open spec fn val_model(v: VarV) -> ValS
    decreases v,
{
    match v {
        VarV::Num(n) => ValS::Num(n),
        VarV::Bool(b) => ValS::Bool(b),
        VarV::Tuple(ts) => ValS::Tuple(vals_model(ts@)),
        VarV::Procedure(c) => ValS::Procedure(code_model(c@)),
    }
}

/// Elementwise model of a sequence of runtime values.
pub open spec fn vals_model(s: Seq<VarV>) -> Seq<ValS>
    decreases s,
{
    Seq::new(
        s.len(),
        |i: int|
            if 0 <= i < s.len() {
                val_model(s[i])
            } else {
                ValS::Num(0)
            },
    )
}

/// Model of a value result: the fault is kept, a value is modelled.
pub open spec fn res_model(r: Result<VarV, Fault>) -> Result<ValS, Fault> {
    match r {
        Ok(v) => Ok(val_model(v)),
        Err(f) => Err(f),
    }
}

/// Structural equality of runtime values. It is defined within one tag
/// only: numbers by their value, booleans by their value, tuples
/// elementwise. Any cross-tag pair is unequal, and so is every pair of
/// procedures: equality never faults.
pub open spec fn vals_eq(a: ValS, b: ValS) -> bool
    decreases a,
{
    match (a, b) {
        (ValS::Num(x), ValS::Num(y)) => x == y,
        (ValS::Bool(x), ValS::Bool(y)) => x == y,
        (ValS::Tuple(t1), ValS::Tuple(t2)) => t1.len() == t2.len() && (forall|i: int|
            0 <= i < t1.len() ==> vals_eq(#[trigger] t1[i], t2[i])),
        _ => false,
    }
}

/// Unary `not`: negates a boolean, arithmetically negates a number
/// (faulting on the one unrepresentable negation), and faults on any
/// other tag.
pub open spec fn not_val(a: ValS) -> Result<ValS, Fault> {
    match a {
        ValS::Bool(x) => Ok(ValS::Bool(!x)),
        ValS::Num(x) => if x == isize::MIN {
            Err(Fault::Arithmetic)
        } else {
            Ok(ValS::Num((-(x as int)) as isize))
        },
        _ => Err(Fault::TypeMismatch),
    }
}

/// Addition, overloaded: the sum of two numbers, or the logical *or* of
/// two booleans; any other combination is a type mismatch.
pub open spec fn add_vals(a: ValS, b: ValS) -> Result<ValS, Fault> {
    match (a, b) {
        (ValS::Num(x), ValS::Num(y)) => match x.checked_add(y) {
            Some(s) => Ok(ValS::Num(s)),
            None => Err(Fault::Arithmetic),
        },
        (ValS::Bool(x), ValS::Bool(y)) => Ok(ValS::Bool(x || y)),
        _ => Err(Fault::TypeMismatch),
    }
}

/// Subtraction: numbers only.
pub open spec fn sub_vals(a: ValS, b: ValS) -> Result<ValS, Fault> {
    match (a, b) {
        (ValS::Num(x), ValS::Num(y)) => match x.checked_sub(y) {
            Some(s) => Ok(ValS::Num(s)),
            None => Err(Fault::Arithmetic),
        },
        _ => Err(Fault::TypeMismatch),
    }
}

/// Multiplication, overloaded: the product of two numbers, or the logical
/// *and* of two booleans.
pub open spec fn mul_vals(a: ValS, b: ValS) -> Result<ValS, Fault> {
    match (a, b) {
        (ValS::Num(x), ValS::Num(y)) => match x.checked_mul(y) {
            Some(s) => Ok(ValS::Num(s)),
            None => Err(Fault::Arithmetic),
        },
        (ValS::Bool(x), ValS::Bool(y)) => Ok(ValS::Bool(x && y)),
        _ => Err(Fault::TypeMismatch),
    }
}

/// Truncating division: numbers only; a zero divisor and the one
/// overflowing quotient are arithmetic faults.
pub open spec fn div_vals(a: ValS, b: ValS) -> Result<ValS, Fault> {
    match (a, b) {
        (ValS::Num(x), ValS::Num(y)) => match x.checked_div(y) {
            Some(s) => Ok(ValS::Num(s)),
            None => Err(Fault::Arithmetic),
        },
        _ => Err(Fault::TypeMismatch),
    }
}

/// Truncating remainder: numbers only.
pub open spec fn rem_vals(a: ValS, b: ValS) -> Result<ValS, Fault> {
    match (a, b) {
        (ValS::Num(x), ValS::Num(y)) => match x.checked_rem(y) {
            Some(s) => Ok(ValS::Num(s)),
            None => Err(Fault::Arithmetic),
        },
        _ => Err(Fault::TypeMismatch),
    }
}

/// Logical *or*: booleans only.
pub open spec fn or_vals(a: ValS, b: ValS) -> Result<ValS, Fault> {
    match (a, b) {
        (ValS::Bool(x), ValS::Bool(y)) => Ok(ValS::Bool(x || y)),
        _ => Err(Fault::TypeMismatch),
    }
}

/// Logical *and*: booleans only.
pub open spec fn and_vals(a: ValS, b: ValS) -> Result<ValS, Fault> {
    match (a, b) {
        (ValS::Bool(x), ValS::Bool(y)) => Ok(ValS::Bool(x && y)),
        _ => Err(Fault::TypeMismatch),
    }
}

/// A comparison of two values. Equality and inequality are total
/// (structural, cross-tag pairs unequal); the four order comparisons are
/// defined for numbers only and fault on every other tag.
pub open spec fn cmp_vals(c: ComparsionV, a: ValS, b: ValS) -> Result<ValS, Fault> {
    match c {
        ComparsionV::Equal => Ok(ValS::Bool(vals_eq(a, b))),
        ComparsionV::NotEqual => Ok(ValS::Bool(!vals_eq(a, b))),
        _ => match (a, b) {
            (ValS::Num(x), ValS::Num(y)) => Ok(
                ValS::Bool(
                    match c {
                        ComparsionV::Less => x < y,
                        ComparsionV::Greater => x > y,
                        ComparsionV::LessOrEqual => x <= y,
                        ComparsionV::GreaterOrEqual => x >= y,
                        _ => false,
                    },
                ),
            ),
            _ => Err(Fault::TypeMismatch),
        },
    }
}

impl VarV {
    /// The instruction list of a procedure value. Only a procedure
    /// carries code, so any other tag is left out.
    pub fn get_code(&self) -> (r: Vec<IR>)
        requires
            self is Procedure,
        ensures
            val_model(*self) == ValS::Procedure(code_model(r@)),
    {
        match self {
            VarV::Procedure(code) => crate::ir::clone_code(code),
            _ => Vec::new(),
        }
    }
}

/// Structural equality of two runtime values, as `vals_eq` states it:
/// numbers and booleans by value, tuples elementwise, everything else
/// (cross-tag pairs and all procedures) unequal.
#[verifier::loop_isolation(false)]
pub fn value_eq(a: &VarV, b: &VarV) -> (r: bool)
    ensures
        r == vals_eq(val_model(*a), val_model(*b)),
    decreases *a,
{
    match (a, b) {
        (VarV::Num(x), VarV::Num(y)) => *x == *y,
        (VarV::Bool(x), VarV::Bool(y)) => *x == *y,
        (VarV::Tuple(t1), VarV::Tuple(t2)) => {
            if t1.len() != t2.len() {
                return false;
            }
            let mut i: usize = 0;
            while i < t1.len()
                invariant
                    i <= t1@.len(),
                    forall|j: int| 0 <= j < i ==> vals_eq(val_model(#[trigger] t1@[j]), val_model(t2@[j])),
                decreases t1@.len() - i,
            {
                if !value_eq(&t1[i], &t2[i]) {
                    proof {
                        let m1 = vals_model(t1@);
                        let m2 = vals_model(t2@);
                        assert(m1[i as int] == val_model(t1@[i as int]));
                        assert(m2[i as int] == val_model(t2@[i as int]));
                        assert(!vals_eq(m1[i as int], m2[i as int]));
                    }
                    return false;
                }
                i += 1;
            }
            proof {
                let m1 = vals_model(t1@);
                let m2 = vals_model(t2@);
                assert(forall|j: int|
                    0 <= j < m1.len() ==> vals_eq(#[trigger] m1[j], m2[j]) == vals_eq(
                        val_model(t1@[j]),
                        val_model(t2@[j]),
                    ));
            }
            true
        },
        _ => false,
    }
}

/// A deep copy of a runtime value, equal to the original in the model.
#[verifier::loop_isolation(false)]
pub fn clone_value(v: &VarV) -> (r: VarV)
    ensures
        val_model(r) == val_model(*v),
    decreases *v,
{
    match v {
        VarV::Num(n) => VarV::Num(*n),
        VarV::Bool(b) => VarV::Bool(*b),
        VarV::Procedure(c) => VarV::Procedure(crate::ir::clone_code(c)),
        VarV::Tuple(ts) => {
            let mut out: Vec<VarV> = Vec::new();
            let mut i: usize = 0;
            while i < ts.len()
                invariant
                    i <= ts@.len(),
                    out@.len() == i,
                    forall|j: int| 0 <= j < i ==> val_model(#[trigger] out@[j]) == val_model(ts@[j]),
                decreases ts@.len() - i,
            {
                out.push(clone_value(&ts[i]));
                i += 1;
            }
            assert(vals_model(out@) =~= vals_model(ts@));
            VarV::Tuple(out)
        },
    }
}

/// Unary `not` on a value, as `not_val` states it.
pub fn value_not(a: &VarV) -> (r: Result<VarV, Fault>)
    ensures
        res_model(r) == not_val(val_model(*a)),
{
    match a {
        VarV::Bool(x) => Ok(VarV::Bool(!*x)),
        VarV::Num(x) => if *x == isize::MIN {
            Err(Fault::Arithmetic)
        } else {
            Ok(VarV::Num(-*x))
        },
        _ => Err(Fault::TypeMismatch),
    }
}

/// Overloaded addition, as `add_vals` states it: the sum of two numbers,
/// or the logical *or* of two booleans.
pub fn value_add(a: &VarV, b: &VarV) -> (r: Result<VarV, Fault>)
    ensures
        res_model(r) == add_vals(val_model(*a), val_model(*b)),
{
    match (a, b) {
        (VarV::Num(x), VarV::Num(y)) => match x.checked_add(*y) {
            Some(s) => Ok(VarV::Num(s)),
            None => Err(Fault::Arithmetic),
        },
        (VarV::Bool(x), VarV::Bool(y)) => Ok(VarV::Bool(*x || *y)),
        _ => Err(Fault::TypeMismatch),
    }
}

/// Subtraction, as `sub_vals` states it.
pub fn value_sub(a: &VarV, b: &VarV) -> (r: Result<VarV, Fault>)
    ensures
        res_model(r) == sub_vals(val_model(*a), val_model(*b)),
{
    match (a, b) {
        (VarV::Num(x), VarV::Num(y)) => match x.checked_sub(*y) {
            Some(s) => Ok(VarV::Num(s)),
            None => Err(Fault::Arithmetic),
        },
        _ => Err(Fault::TypeMismatch),
    }
}

/// Overloaded multiplication, as `mul_vals` states it: the product of two
/// numbers, or the logical *and* of two booleans.
pub fn value_mul(a: &VarV, b: &VarV) -> (r: Result<VarV, Fault>)
    ensures
        res_model(r) == mul_vals(val_model(*a), val_model(*b)),
{
    match (a, b) {
        (VarV::Num(x), VarV::Num(y)) => match x.checked_mul(*y) {
            Some(s) => Ok(VarV::Num(s)),
            None => Err(Fault::Arithmetic),
        },
        (VarV::Bool(x), VarV::Bool(y)) => Ok(VarV::Bool(*x && *y)),
        _ => Err(Fault::TypeMismatch),
    }
}

/// Truncating division, as `div_vals` states it.
pub fn value_div(a: &VarV, b: &VarV) -> (r: Result<VarV, Fault>)
    ensures
        res_model(r) == div_vals(val_model(*a), val_model(*b)),
{
    match (a, b) {
        (VarV::Num(x), VarV::Num(y)) => match x.checked_div(*y) {
            Some(s) => Ok(VarV::Num(s)),
            None => Err(Fault::Arithmetic),
        },
        _ => Err(Fault::TypeMismatch),
    }
}

/// Truncating remainder, as `rem_vals` states it.
pub fn value_rem(a: &VarV, b: &VarV) -> (r: Result<VarV, Fault>)
    ensures
        res_model(r) == rem_vals(val_model(*a), val_model(*b)),
{
    match (a, b) {
        (VarV::Num(x), VarV::Num(y)) => match x.checked_rem(*y) {
            Some(s) => Ok(VarV::Num(s)),
            None => Err(Fault::Arithmetic),
        },
        _ => Err(Fault::TypeMismatch),
    }
}

/// Logical *or*, as `or_vals` states it: booleans only.
pub fn value_or(a: &VarV, b: &VarV) -> (r: Result<VarV, Fault>)
    ensures
        res_model(r) == or_vals(val_model(*a), val_model(*b)),
{
    match (a, b) {
        (VarV::Bool(x), VarV::Bool(y)) => Ok(VarV::Bool(*x || *y)),
        _ => Err(Fault::TypeMismatch),
    }
}

/// Logical *and*, as `and_vals` states it: booleans only.
pub fn value_and(a: &VarV, b: &VarV) -> (r: Result<VarV, Fault>)
    ensures
        res_model(r) == and_vals(val_model(*a), val_model(*b)),
{
    match (a, b) {
        (VarV::Bool(x), VarV::Bool(y)) => Ok(VarV::Bool(*x && *y)),
        _ => Err(Fault::TypeMismatch),
    }
}

/// A comparison of two values, as `cmp_vals` states it.
pub fn value_cmp(c: ComparsionV, a: &VarV, b: &VarV) -> (r: Result<VarV, Fault>)
    ensures
        res_model(r) == cmp_vals(c, val_model(*a), val_model(*b)),
{
    match c {
        ComparsionV::Equal => Ok(VarV::Bool(value_eq(a, b))),
        ComparsionV::NotEqual => Ok(VarV::Bool(!value_eq(a, b))),
        _ => match (a, b) {
            (VarV::Num(x), VarV::Num(y)) => Ok(
                VarV::Bool(
                    match c {
                        ComparsionV::Less => *x < *y,
                        ComparsionV::Greater => *x > *y,
                        ComparsionV::LessOrEqual => *x <= *y,
                        ComparsionV::GreaterOrEqual => *x >= *y,
                        _ => false,
                    },
                ),
            ),
            _ => Err(Fault::TypeMismatch),
        },
    }
}

impl PartialEq for VarV {
    /// Structural equality, as the model function `vals_eq` states it.
    fn eq(&self, other: &VarV) -> (r: bool) {
        value_eq(self, other)
    }
}

impl vstd::std_specs::cmp::PartialEqSpecImpl for VarV {
    open spec fn obeys_eq_spec() -> bool {
        true
    }

    open spec fn eq_spec(&self, other: &VarV) -> bool {
        vals_eq(val_model(*self), val_model(*other))
    }
}

/// A lexical token, as the lexer hands them to the parser.
#[derive(Debug)]
pub enum TokenV {
    /// An opening or closing bracket of one of four kinds.
    Brackets { id: u8, is_opened: bool },
    /// An arithmetic sign.
    Sign(u8),
    /// A boolean literal.
    Bool(bool),
    /// A number literal.
    Number(isize),
    /// A name.
    Name(String),
    /// An integer-coded punctuation mark or keyword.
    Mark(u8),
    /// A comparison operator.
    Comparsion(u8),
    /// A statement separator: `true` for the comma, `false` for the dot.
    Dot(bool),
    /// The end-of-stream marker.
    EOF,
}

/// Mathematical model of a token.
pub enum TokS {
    Brackets { id: u8, is_opened: bool },
    Sign(u8),
    Bool(bool),
    Number(isize),
    Name(Seq<char>),
    Mark(u8),
    Comparsion(u8),
    Dot(bool),
    EOF,
}

/// The model of a token: a name maps to its character sequence,
/// everything else to itself.
pub open spec fn tok_model(t: TokenV) -> TokS {
    match t {
        TokenV::Brackets { id, is_opened } => TokS::Brackets { id, is_opened },
        TokenV::Sign(s) => TokS::Sign(s),
        TokenV::Bool(b) => TokS::Bool(b),
        TokenV::Number(n) => TokS::Number(n),
        TokenV::Name(s) => TokS::Name(s@),
        TokenV::Mark(m) => TokS::Mark(m),
        TokenV::Comparsion(c) => TokS::Comparsion(c),
        TokenV::Dot(d) => TokS::Dot(d),
        TokenV::EOF => TokS::EOF,
    }
}

/// Elementwise model of a token sequence.
pub open spec fn toks_model(s: Seq<TokenV>) -> Seq<TokS> {
    Seq::new(s.len(), |i: int| tok_model(s[i]))
}

/// Whether a token is a binary operator the expression parser consumes:
/// the `not`, `and` and `or` marks, every comparison, and every sign.
pub open spec fn is_operation_tok(t: TokS) -> bool {
    match t {
        TokS::Mark(m) => m == 1 || m == 7 || m == 9,
        TokS::Comparsion(_) => true,
        TokS::Sign(_) => true,
        _ => false,
    }
}

/// The binding priority of an operator token; a higher priority binds
/// tighter. Multiplicative signs bind at 6, additive signs at 5,
/// comparisons at 4, the `not` mark at 3, `and` at 2, `or` at 1, and
/// every other token at 0.
pub open spec fn priority_tok(t: TokS) -> u8 {
    match t {
        TokS::Comparsion(_) => 4,
        TokS::Sign(s) => if 1 <= s <= 2 {
            5
        } else if 3 <= s <= 5 {
            6
        } else {
            0
        },
        TokS::Mark(m) => if m == 7 {
            2
        } else if m == 9 {
            1
        } else if m == 1 {
            3
        } else {
            0
        },
        _ => 0,
    }
}

/// Whether a token names an arithmetic or boolean action.
pub open spec fn is_action_tok(t: TokS) -> bool {
    match t {
        TokS::Sign(s) => 1 <= s <= 5,
        TokS::Mark(m) => m == 1 || m == 7 || m == 9,
        _ => false,
    }
}

/// The action a sign or mark token names.
pub open spec fn action_of_tok(t: TokS) -> ActionV {
    match t {
        TokS::Sign(s) => if s == 1 {
            ActionV::Add
        } else if s == 2 {
            ActionV::Sub
        } else if s == 3 {
            ActionV::Mul
        } else if s == 4 {
            ActionV::Div
        } else {
            ActionV::Mod
        },
        TokS::Mark(m) => if m == 1 {
            ActionV::Not
        } else if m == 7 {
            ActionV::And
        } else {
            ActionV::Or
        },
        _ => ActionV::Not,
    }
}

/// The comparison a comparison token names.
pub open spec fn comparsion_of_tok(t: TokS) -> ComparsionV {
    match t {
        TokS::Comparsion(id) => if id == 1 {
            ComparsionV::Equal
        } else if id == 2 {
            ComparsionV::Greater
        } else if id == 3 {
            ComparsionV::Less
        } else if id == 4 {
            ComparsionV::NotEqual
        } else if id == 5 {
            ComparsionV::GreaterOrEqual
        } else {
            ComparsionV::LessOrEqual
        },
        _ => ComparsionV::Equal,
    }
}

impl TokenV {
    /// The value of a number literal token.
    pub fn get_int_value(&self) -> (r: isize)
        requires
            self is Number,
        ensures
            tok_model(*self) == TokS::Number(r),
    {
        match self {
            TokenV::Number(v) => *v,
            _ => 0,
        }
    }

    /// The text of a name token.
    pub fn get_string_from_name(&self) -> (r: String)
        requires
            self is Name,
        ensures
            tok_model(*self) == TokS::Name(r@),
    {
        match self {
            TokenV::Name(name) => name.clone(),
            _ => String::new(),
        }
    }

    /// Whether this token is an operator, as `is_operation_tok` states it.
    pub fn is_operation(&self) -> (r: bool)
        ensures
            r == is_operation_tok(tok_model(*self)),
    {
        match self {
            TokenV::Mark(m) => *m == 1 || *m == 7 || *m == 9,
            TokenV::Comparsion(_) => true,
            TokenV::Sign(_) => true,
            _ => false,
        }
    }

    /// The binding priority of this token, as `priority_tok` states it.
    pub fn get_operation_priorety(&self) -> (r: u8)
        ensures
            r == priority_tok(tok_model(*self)),
    {
        match self {
            TokenV::Comparsion(_) => 4,
            TokenV::Sign(s) => if 1 <= *s && *s <= 2 {
                5
            } else if 3 <= *s && *s <= 5 {
                6
            } else {
                0
            },
            TokenV::Mark(m) => if *m == 7 {
                2
            } else if *m == 9 {
                1
            } else if *m == 1 {
                3
            } else {
                0
            },
            _ => 0,
        }
    }

    /// The action this sign or mark names, as `action_of_tok` states it.
    pub fn token_to_action_type(&self) -> (r: ActionV)
        requires
            is_action_tok(tok_model(*self)),
        ensures
            r == action_of_tok(tok_model(*self)),
    {
        match self {
            TokenV::Sign(s) => if *s == 1 {
                ActionV::Add
            } else if *s == 2 {
                ActionV::Sub
            } else if *s == 3 {
                ActionV::Mul
            } else if *s == 4 {
                ActionV::Div
            } else {
                ActionV::Mod
            },
            TokenV::Mark(m) => if *m == 1 {
                ActionV::Not
            } else if *m == 7 {
                ActionV::And
            } else {
                ActionV::Or
            },
            _ => ActionV::Not,
        }
    }

    /// The comparison this token names, as `comparsion_of_tok` states it.
    pub fn token_to_comparsion_type(&self) -> (r: ComparsionV)
        requires
            self is Comparsion,
        ensures
            r == comparsion_of_tok(tok_model(*self)),
    {
        match self {
            TokenV::Comparsion(id) => if *id == 1 {
                ComparsionV::Equal
            } else if *id == 2 {
                ComparsionV::Greater
            } else if *id == 3 {
                ComparsionV::Less
            } else if *id == 4 {
                ComparsionV::NotEqual
            } else if *id == 5 {
                ComparsionV::GreaterOrEqual
            } else {
                ComparsionV::LessOrEqual
            },
            _ => ComparsionV::Equal,
        }
    }
}

/// One node of the statement tree.
#[derive(Debug)]
pub struct Statement {
    pub value: Box<StatementV>,
}

/// The statement tree: blocks, literals, names, operator applications,
/// conditionals, bindings, ports, and loop control.
#[derive(Debug)]
pub enum StatementV {
    /// A list of statements with a block kind.
    Block(Vec<Statement>, BlockV),
    /// Binds the value of `link` under the name `like`.
    Define { link: Statement, like: String },
    /// Applies the procedure the first statement names to the value of
    /// the second.
    Call(Statement, Statement),
    /// Binds the value of `value` under `name`; rebinding is free.
    SetName { name: String, value: Statement },
    Nil,
    Name(String),
    Bool(bool),
    Number(isize),
    Comparsion(ComparsionV, Statement, Statement),
    /// A boolean operation; unary `not` has no right operand.
    OperationBool(ActionV, Statement, Option<Statement>),
    OperationNumder(ActionV, Statement, Statement),
    If(Statement, Statement, Option<Statement>),
    /// Emits the value of `expr` to the run's output port.
    Out { expr: Statement },
    /// Reads one value from the run's input port.
    In,
    /// Loop control: repeat the enclosing block from its start (`true`)
    /// or exit it (`false`).
    Jump(bool),
}

/// Mathematical model of a statement.
pub enum StmtS {
    Block(Seq<StmtS>, BlockV),
    Define { link: Box<StmtS>, like: Seq<char> },
    Call(Box<StmtS>, Box<StmtS>),
    SetName { name: Seq<char>, value: Box<StmtS> },
    Nil,
    Name(Seq<char>),
    Bool(bool),
    Number(isize),
    Comparsion(ComparsionV, Box<StmtS>, Box<StmtS>),
    OperationBool(ActionV, Box<StmtS>, Option<Box<StmtS>>),
    OperationNumder(ActionV, Box<StmtS>, Box<StmtS>),
    If(Box<StmtS>, Box<StmtS>, Option<Box<StmtS>>),
    Out(Box<StmtS>),
    In,
    Jump(bool),
}

/// The model of a statement node.
pub open spec fn stmt_model(s: Statement) -> StmtS
    decreases s,
{
    stmtv_model(*s.value)
}

/// The model of an optional child statement.
pub open spec fn stmt_opt_model(s: Option<Statement>) -> Option<Box<StmtS>>
    decreases s,
{
    match s {
        Some(st) => Some(Box::new(stmt_model(st))),
        None => None,
    }
}

/// The model of a statement: children map structurally, names map to
/// their character sequences.
pub open spec fn stmtv_model(s: StatementV) -> StmtS
    decreases s,
{
    match s {
        StatementV::Block(v, kind) => StmtS::Block(stmts_model(v@), kind),
        StatementV::Define { link, like } => StmtS::Define {
            link: Box::new(stmt_model(link)),
            like: like@,
        },
        StatementV::Call(f, arg) => StmtS::Call(Box::new(stmt_model(f)), Box::new(stmt_model(arg))),
        StatementV::SetName { name, value } => StmtS::SetName {
            name: name@,
            value: Box::new(stmt_model(value)),
        },
        StatementV::Nil => StmtS::Nil,
        StatementV::Name(n) => StmtS::Name(n@),
        StatementV::Bool(b) => StmtS::Bool(b),
        StatementV::Number(n) => StmtS::Number(n),
        StatementV::Comparsion(c, l, r) => StmtS::Comparsion(
            c,
            Box::new(stmt_model(l)),
            Box::new(stmt_model(r)),
        ),
        StatementV::OperationBool(op, l, r) => StmtS::OperationBool(
            op,
            Box::new(stmt_model(l)),
            stmt_opt_model(r),
        ),
        StatementV::OperationNumder(op, l, r) => StmtS::OperationNumder(
            op,
            Box::new(stmt_model(l)),
            Box::new(stmt_model(r)),
        ),
        StatementV::If(c, t, e) => StmtS::If(
            Box::new(stmt_model(c)),
            Box::new(stmt_model(t)),
            stmt_opt_model(e),
        ),
        StatementV::Out { expr } => StmtS::Out(Box::new(stmt_model(expr))),
        StatementV::In => StmtS::In,
        StatementV::Jump(b) => StmtS::Jump(b),
    }
}

/// Elementwise model of a statement list.
pub open spec fn stmts_model(v: Seq<Statement>) -> Seq<StmtS>
    decreases v,
{
    Seq::new(
        v.len(),
        |i: int|
            if 0 <= i < v.len() {
                stmt_model(v[i])
            } else {
                StmtS::Nil
            },
    )
}

impl Statement {
    /// Wraps a statement node.
    pub fn new(value: Box<StatementV>) -> (r: Self)
        ensures
            stmt_model(r) == stmtv_model(*value),
    {
        Self { value }
    }

    /// A deep copy of the node this statement wraps.
    pub fn get_ast(&self) -> (r: StatementV)
        ensures
            stmtv_model(r) == stmt_model(*self),
    {
        clone_statement_v(&self.value)
    }
}

/// A deep copy of a statement, equal to the original in the model.
pub fn clone_statement(s: &Statement) -> (r: Statement)
    ensures
        stmt_model(r) == stmt_model(*s),
    decreases *s,
{
    Statement { value: Box::new(clone_statement_v(&s.value)) }
}

/// A deep copy of an optional child statement.
pub fn clone_statement_opt(s: &Option<Statement>) -> (r: Option<Statement>)
    ensures
        stmt_opt_model(r) == stmt_opt_model(*s),
    decreases *s,
{
    match s {
        Some(st) => Some(clone_statement(st)),
        None => None,
    }
}

/// A deep copy of a statement node, equal to the original in the model.
#[verifier::loop_isolation(false)]
pub fn clone_statement_v(v: &StatementV) -> (r: StatementV)
    ensures
        stmtv_model(r) == stmtv_model(*v),
    decreases *v,
{
    match v {
        StatementV::Block(stmts, kind) => {
            let mut out: Vec<Statement> = Vec::new();
            let mut i: usize = 0;
            while i < stmts.len()
                invariant
                    i <= stmts@.len(),
                    out@.len() == i,
                    forall|j: int|
                        0 <= j < i ==> stmt_model(#[trigger] out@[j]) == stmt_model(stmts@[j]),
                decreases stmts@.len() - i,
            {
                out.push(clone_statement(&stmts[i]));
                i += 1;
            }
            assert(stmts_model(out@) =~= stmts_model(stmts@));
            StatementV::Block(out, *kind)
        },
        StatementV::Define { link, like } => StatementV::Define {
            link: clone_statement(link),
            like: like.clone(),
        },
        StatementV::Call(f, arg) => StatementV::Call(clone_statement(f), clone_statement(arg)),
        StatementV::SetName { name, value } => StatementV::SetName {
            name: name.clone(),
            value: clone_statement(value),
        },
        StatementV::Nil => StatementV::Nil,
        StatementV::Name(n) => StatementV::Name(n.clone()),
        StatementV::Bool(b) => StatementV::Bool(*b),
        StatementV::Number(n) => StatementV::Number(*n),
        StatementV::Comparsion(c, l, r) => StatementV::Comparsion(
            *c,
            clone_statement(l),
            clone_statement(r),
        ),
        StatementV::OperationBool(op, l, r) => StatementV::OperationBool(
            *op,
            clone_statement(l),
            clone_statement_opt(r),
        ),
        StatementV::OperationNumder(op, l, r) => StatementV::OperationNumder(
            *op,
            clone_statement(l),
            clone_statement(r),
        ),
        StatementV::If(c, t, e) => StatementV::If(
            clone_statement(c),
            clone_statement(t),
            clone_statement_opt(e),
        ),
        StatementV::Out { expr } => StatementV::Out { expr: clone_statement(expr) },
        StatementV::In => StatementV::In,
        StatementV::Jump(b) => StatementV::Jump(*b),
    }
}

/// An output port: the console writer (accepts every value), the
/// test-assertion queue (accepts a value only if it equals the next
/// expected one, consuming it), and an inert port that accepts everything.
#[derive(Debug)]
pub enum FlowListener {
    Console,
    Asserter(Vec<VarV>),
    Inert,
}

/// Mathematical model of an output port.
pub enum ListenerS {
    Console,
    Asserter(Seq<ValS>),
    Inert,
}

/// The model of an output port.
pub open spec fn listener_model(l: FlowListener) -> ListenerS {
    match l {
        FlowListener::Console => ListenerS::Console,
        FlowListener::Asserter(q) => ListenerS::Asserter(vals_model(q@)),
        FlowListener::Inert => ListenerS::Inert,
    }
}

/// Delivery of one value to a port: the port's new state, and whether the
/// value was accepted. The console and inert ports accept everything and
/// keep their state; the asserter consumes its next expected value and
/// accepts exactly when the delivered value equals it, refusing every
/// delivery once its queue is empty.
pub open spec fn deliver_val(l: ListenerS, v: ValS) -> (ListenerS, bool) {
    match l {
        ListenerS::Console => (l, true),
        ListenerS::Inert => (l, true),
        ListenerS::Asserter(q) => if q.len() == 0 {
            (l, false)
        } else {
            (ListenerS::Asserter(q.drop_first()), vals_eq(q.first(), v))
        },
    }
}

impl FlowListener {
    /// Delivers one value to this port, as `deliver_val` states it.
    pub fn get(&mut self, val: &VarV) -> (r: bool)
        ensures
            (listener_model(*final(self)), r) == deliver_val(
                listener_model(*old(self)),
                val_model(*val),
            ),
    {
        match self {
            FlowListener::Console => true,
            FlowListener::Inert => true,
            FlowListener::Asserter(q) => {
                if q.len() == 0 {
                    false
                } else {
                    let expected = q.remove(0);
                    let r = value_eq(&expected, val);
                    proof {
                        assert(vals_model(q@) =~= vals_model(old(self)->Asserter_0@).drop_first());
                    }
                    r
                }
            },
        }
    }
}

/// An input port. The inert port always hands back the number zero; a
/// console reader lives outside the library and hands its values in as
/// plain data.
#[derive(Debug)]
pub enum FlowStreamer {
    Inert,
}

impl FlowStreamer {
    /// Reads one value from this port.
    pub fn send(&self) -> (r: VarV)
        ensures
            val_model(r) == ValS::Num(0),
    {
        VarV::Num(0)
    }
}

} // verus!

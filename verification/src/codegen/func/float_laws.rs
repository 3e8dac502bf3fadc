//! Floating-point operators apply the operation they name.

use vstd::prelude::*;

use crate::codegen::func::state::GenV;
use crate::codegen::func::value_laws::{law_expressions_are_pushed, yields};
use crate::codegen::runtime::{rt_text, Rt};
use crate::error::FailV;
use crate::ops::{FloatOp, FloatTy, Operator};
use crate::wasm::ValType;

verus! {

/// The operations on floating-point numbers, whatever these are: `V` stands for a number
/// or the result of a comparison.
#[verifier::reject_recursive_types(V)]
pub struct FloatsV<V> {
    pub add: spec_fn(V, V) -> V,
    pub sub: spec_fn(V, V) -> V,
    pub mul: spec_fn(V, V) -> V,
    pub div: spec_fn(V, V) -> V,
    pub min: spec_fn(V, V) -> V,
    pub max: spec_fn(V, V) -> V,
    pub copysign: spec_fn(V, V) -> V,
    pub eq: spec_fn(V, V) -> V,
    pub lt: spec_fn(V, V) -> V,
    pub le: spec_fn(V, V) -> V,
    pub not: spec_fn(V) -> V,
    pub neg: spec_fn(V) -> V,
    pub abs: spec_fn(V) -> V,
    pub ceil: spec_fn(V) -> V,
    pub floor: spec_fn(V) -> V,
    pub trunc: spec_fn(V) -> V,
    pub nearest: spec_fn(V) -> V,
    pub sqrt: spec_fn(V) -> V,
}

/// What an operator of WebAssembly computes. One number is greater than another if that
/// one is less, and they differ if they are not equal.
pub open spec fn wasm_float<V>(f: FloatsV<V>, op: FloatOp, a: V, b: V) -> V {
    match op {
        FloatOp::Abs => (f.abs)(b),
        FloatOp::Neg => (f.neg)(b),
        FloatOp::Ceil => (f.ceil)(b),
        FloatOp::Floor => (f.floor)(b),
        FloatOp::Trunc => (f.trunc)(b),
        FloatOp::Nearest => (f.nearest)(b),
        FloatOp::Sqrt => (f.sqrt)(b),
        FloatOp::Add => (f.add)(a, b),
        FloatOp::Sub => (f.sub)(a, b),
        FloatOp::Mul => (f.mul)(a, b),
        FloatOp::Div => (f.div)(a, b),
        FloatOp::Min => (f.min)(a, b),
        FloatOp::Max => (f.max)(a, b),
        FloatOp::Copysign => (f.copysign)(a, b),
        FloatOp::Eq => (f.eq)(a, b),
        FloatOp::Ne => (f.not)((f.eq)(a, b)),
        FloatOp::Lt => (f.lt)(a, b),
        FloatOp::Gt => (f.lt)(b, a),
        FloatOp::Le => (f.le)(a, b),
        FloatOp::Ge => (f.le)(b, a),
    }
}

/// A Rust expression over floating-point operands.
pub enum FloatExprV {
    /// `(a op b)`
    Infix(Seq<char>),
    /// `i32::from(a op b)`
    Compare(Seq<char>),
    /// `a.method(b)`
    Method(Seq<char>),
    /// `f(a, b)`
    Call(Seq<char>),
    /// `b.method()`
    Unary(Seq<char>),
    /// `(-b)`
    Negate,
}

impl FloatExprV {
    pub open spec fn text(self, a: Seq<char>, b: Seq<char>) -> Seq<char> {
        match self {
            FloatExprV::Infix(op) => "("@ + a + " "@ + op + " "@ + b + ")"@,
            FloatExprV::Compare(op) => "i32::from("@ + a + " "@ + op + " "@ + b + ")"@,
            FloatExprV::Method(m) => a + "."@ + m + "("@ + b + ")"@,
            FloatExprV::Call(f) => f + "("@ + a + ", "@ + b + ")"@,
            FloatExprV::Unary(m) => b + "."@ + m + "()"@,
            FloatExprV::Negate => "(-"@ + b + ")"@,
        }
    }

    /// What the expression computes, by what Rust says of its operator, its method or
    /// the function it calls.
    pub open spec fn value<V>(self, f: FloatsV<V>, a: V, b: V) -> V {
        match self {
            FloatExprV::Infix(op) => if op == "+"@ {
                (f.add)(a, b)
            } else if op == "-"@ {
                (f.sub)(a, b)
            } else if op == "*"@ {
                (f.mul)(a, b)
            } else {
                (f.div)(a, b)
            },
            FloatExprV::Compare(op) => if op == "=="@ {
                (f.eq)(a, b)
            } else if op == "!="@ {
                (f.not)((f.eq)(a, b))
            } else if op == "<"@ {
                (f.lt)(a, b)
            } else if op == ">"@ {
                (f.lt)(b, a)
            } else if op == "<="@ {
                (f.le)(a, b)
            } else {
                (f.le)(b, a)
            },
            FloatExprV::Method(_) => (f.copysign)(a, b),
            FloatExprV::Call(name) => if name == "f32_min"@ || name == "f64_min"@ {
                (f.min)(a, b)
            } else {
                (f.max)(a, b)
            },
            FloatExprV::Unary(m) => if m == "abs"@ {
                (f.abs)(b)
            } else if m == "ceil"@ {
                (f.ceil)(b)
            } else if m == "floor"@ {
                (f.floor)(b)
            } else if m == "trunc"@ {
                (f.trunc)(b)
            } else if m == "round_ties_even"@ {
                (f.nearest)(b)
            } else {
                (f.sqrt)(b)
            },
            FloatExprV::Negate => (f.neg)(b),
        }
    }

    /// Whether the operator, method or function is one of those that `value` speaks of.
    pub open spec fn is_known(self) -> bool {
        match self {
            FloatExprV::Infix(op) => op == "+"@ || op == "-"@ || op == "*"@ || op == "/"@,
            FloatExprV::Compare(op) => op == "=="@ || op == "!="@ || op == "<"@ || op == ">"@ || op
                == "<="@ || op == ">="@,
            FloatExprV::Method(m) => m == "copysign"@,
            FloatExprV::Call(name) => name == "f32_min"@ || name == "f64_min"@ || name
                == "f32_max"@ || name == "f64_max"@,
            FloatExprV::Unary(m) => m == "abs"@ || m == "ceil"@ || m == "floor"@ || m == "trunc"@
                || m == "round_ties_even"@ || m == "sqrt"@,
            FloatExprV::Negate => true,
        }
    }
}

/// Whether the expression computes the operator, whatever the numbers are.
pub open spec fn computes_float<V>(e: FloatExprV, op: FloatOp, f: FloatsV<V>, a: V, b: V) -> bool {
    e.is_known() && e.value(f, a, b) == wasm_float(f, op, a, b)
}

pub open spec fn float_arity(op: FloatOp) -> int {
    if op is Abs || op is Neg || op is Ceil || op is Floor || op is Trunc || op is Nearest
        || op is Sqrt {
        1
    } else {
        2
    }
}

spec fn float_expr(ty: FloatTy, op: FloatOp) -> FloatExprV {
    match op {
        FloatOp::Abs => FloatExprV::Unary("abs"@),
        FloatOp::Neg => FloatExprV::Negate,
        FloatOp::Ceil => FloatExprV::Unary("ceil"@),
        FloatOp::Floor => FloatExprV::Unary("floor"@),
        FloatOp::Trunc => FloatExprV::Unary("trunc"@),
        FloatOp::Nearest => FloatExprV::Unary("round_ties_even"@),
        FloatOp::Sqrt => FloatExprV::Unary("sqrt"@),
        FloatOp::Add => FloatExprV::Infix("+"@),
        FloatOp::Sub => FloatExprV::Infix("-"@),
        FloatOp::Mul => FloatExprV::Infix("*"@),
        FloatOp::Div => FloatExprV::Infix("/"@),
        FloatOp::Min => match ty {
            FloatTy::F32 => FloatExprV::Call(rt_text(Rt::F32Min)),
            FloatTy::F64 => FloatExprV::Call(rt_text(Rt::F64Min)),
        },
        FloatOp::Max => match ty {
            FloatTy::F32 => FloatExprV::Call(rt_text(Rt::F32Max)),
            FloatTy::F64 => FloatExprV::Call(rt_text(Rt::F64Max)),
        },
        FloatOp::Copysign => FloatExprV::Method("copysign"@),
        FloatOp::Eq => FloatExprV::Compare("=="@),
        FloatOp::Ne => FloatExprV::Compare("!="@),
        FloatOp::Lt => FloatExprV::Compare("<"@),
        FloatOp::Gt => FloatExprV::Compare(">"@),
        FloatOp::Le => FloatExprV::Compare("<="@),
        FloatOp::Ge => FloatExprV::Compare(">="@),
    }
}

#[verifier::rlimit(40)]
proof fn lemma_float_words()
    ensures
        "+"@ != "-"@ && "+"@ != "*"@ && "+"@ != "/"@ && "-"@ != "*"@ && "-"@ != "/"@ && "*"@
            != "/"@,
        "=="@ != "!="@ && "=="@ != "<"@ && "=="@ != ">"@ && "=="@ != "<="@ && "=="@ != ">="@,
        "!="@ != "<"@ && "!="@ != ">"@ && "!="@ != "<="@ && "!="@ != ">="@,
        "<"@ != ">"@ && "<"@ != "<="@ && "<"@ != ">="@ && ">"@ != "<="@ && ">"@ != ">="@ && "<="@
            != ">="@,
{
    reveal_strlit("+");
    reveal_strlit("-");
    reveal_strlit("*");
    reveal_strlit("/");
    reveal_strlit("==");
    reveal_strlit("!=");
    reveal_strlit("<");
    reveal_strlit(">");
    reveal_strlit("<=");
    reveal_strlit(">=");
    assert("+"@[0] == '+' && "-"@[0] == '-' && "*"@[0] == '*' && "/"@[0] == '/');
    assert("=="@[0] == '=' && "!="@[0] == '!' && "<="@[0] == '<' && ">="@[0] == '>');
    assert("<"@[0] == '<' && ">"@[0] == '>');
    assert("<"@.len() == 1 && ">"@.len() == 1 && "<="@.len() == 2 && ">="@.len() == 2);
}

#[verifier::rlimit(40)]
proof fn lemma_float_names()
    ensures
        "abs"@ != "ceil"@ && "abs"@ != "floor"@ && "abs"@ != "trunc"@ && "abs"@
            != "round_ties_even"@ && "abs"@ != "sqrt"@,
        "ceil"@ != "floor"@ && "ceil"@ != "trunc"@ && "ceil"@ != "round_ties_even"@ && "ceil"@
            != "sqrt"@,
        "floor"@ != "trunc"@ && "floor"@ != "round_ties_even"@ && "floor"@ != "sqrt"@,
        "trunc"@ != "round_ties_even"@ && "trunc"@ != "sqrt"@ && "round_ties_even"@ != "sqrt"@,
        rt_text(Rt::F32Max) != "f32_min"@ && rt_text(Rt::F32Max) != "f64_min"@,
        rt_text(Rt::F64Max) != "f32_min"@ && rt_text(Rt::F64Max) != "f64_min"@,
{
    reveal_strlit("abs");
    reveal_strlit("ceil");
    reveal_strlit("floor");
    reveal_strlit("trunc");
    reveal_strlit("round_ties_even");
    reveal_strlit("sqrt");
    reveal_strlit("f32_min");
    reveal_strlit("f64_min");
    reveal_strlit("f32_max");
    reveal_strlit("f64_max");
    assert("abs"@[0] == 'a' && "ceil"@[0] == 'c' && "floor"@[0] == 'f' && "trunc"@[0] == 't');
    assert("round_ties_even"@[0] == 'r' && "sqrt"@[0] == 's');
    assert("f32_min"@[5] == 'i' && "f64_min"@[5] == 'i');
    assert("f32_max"@[5] == 'a' && "f64_max"@[5] == 'a');
}

proof fn lemma_float_computes<V>(
    ty: FloatTy,
    op: FloatOp,
    f: FloatsV<V>,
    a: V,
    b: V,
)
    ensures
        computes_float(float_expr(ty, op), op, f, a, b),
{
    lemma_float_words();
    lemma_float_names();
}

proof fn lemma_unfold_float(s: GenV, ty: FloatTy, op: FloatOp, text: Seq<char>)
    requires
        s.reachable,
    ensures
        s.emitted(Operator::Float { ty, op }, text) == s.floating(ty, op),
        s.floating(ty, op) is Ok ==> s.stack.len() >= float_arity(op),
{
    reveal(GenV::lowered_numeric);
    reveal(GenV::floating);
}

#[verifier::rlimit(40)]
proof fn lemma_float_pushes(s: GenV, ty: FloatTy, op: FloatOp, t: GenV)
    requires
        s.floating(ty, op) == Ok::<GenV, FailV>(t),
        s.stack.len() >= float_arity(op),
    ensures
        yields(
            s.drop(float_arity(op)),
            t,
            float_expr(ty, op).text(
                s.stack[s.stack.len() - float_arity(op)].code,
                s.stack.last().code,
            ),
        ),
{
    reveal(GenV::floating);
    let first = s.stack[s.stack.len() - float_arity(op)];
    let last = s.stack.last();
    let code = float_expr(ty, op).text(first.code, last.code);
    let d = s.drop(float_arity(op));
    let compare = op is Eq || op is Ne || op is Lt || op is Gt || op is Le || op is Ge;
    let out = if compare {
        ValType::I32
    } else {
        first.ty
    };
    let stable = if float_arity(op) == 1 {
        last.stable
    } else {
        first.stable && last.stable
    };
    law_expressions_are_pushed(d, code, out, stable);
    if op is Min || op is Max {
        let rt = match (ty, op) {
            (FloatTy::F32, FloatOp::Min) => Rt::F32Min,
            (FloatTy::F64, FloatOp::Min) => Rt::F64Min,
            (FloatTy::F32, _) => Rt::F32Max,
            (FloatTy::F64, _) => Rt::F64Max,
        };
        let e = s.using_rt(rt).drop(2);
        law_expressions_are_pushed(e, code, out, stable);
        assert(e.combined(code, out, stable) == Ok::<GenV, FailV>(t));
        assert(e.stack == d.stack && e.cur == d.cur);
    } else {
        assert(d.combined(code, out, stable) == Ok::<GenV, FailV>(t));
    }
}

/// A floating-point operator applies the operation that it names to the topmost
/// operands in their order, whatever the numbers and the operations on them are. (What
/// the operations give is not stated: these are Rust's own, and for `min` and `max`
/// those of the runtime.)
pub proof fn law_floats_compute<V>(
    s: GenV,
    ty: FloatTy,
    op: FloatOp,
    text: Seq<char>,
    t: GenV,
    f: FloatsV<V>,
    a: V,
    b: V,
)
    requires
        s.reachable,
        s.emitted(Operator::Float { ty, op }, text) == Ok::<GenV, FailV>(t),
    ensures
        s.stack.len() >= float_arity(op),
        exists|e: FloatExprV| #[trigger]
            computes_float(e, op, f, a, b) && yields(
                s.drop(float_arity(op)),
                t,
                e.text(
                    s.stack[s.stack.len() - float_arity(op)].code,
                    s.stack.last().code,
                ),
            ),
{
    lemma_unfold_float(s, ty, op, text);
    lemma_float_pushes(s, ty, op, t);
    lemma_float_computes(ty, op, f, a, b);
}

} // verus!

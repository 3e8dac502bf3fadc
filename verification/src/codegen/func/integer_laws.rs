//! Integer operators compute what WebAssembly says.

use vstd::arithmetic::div_mod::{
    lemma_div_nonincreasing, lemma_fundamental_div_mod, lemma_mod_multiples_vanish,
};
use vstd::prelude::*;

use crate::codegen::func::memvals::rmw_text;
use crate::codegen::func::lowering::{convert_rule, int_type, ConvertRule};
use crate::codegen::func::numeric::wrapped;
use crate::codegen::func::state::GenV;
use crate::codegen::func::value_laws::{law_expressions_are_pushed, yields};
use crate::codegen::ir::NodeV;
use crate::error::FailV;
use crate::ops::{ConvertOp, IntOp, IntTy, Operator, RmwOp};
use crate::text::group_text;
use crate::wasm::ValType;

verus! {

// ---------------------------------------------------------------------------
// Rust expressions
// ---------------------------------------------------------------------------
/// The integer types of Rust that occur in generated expressions.
pub enum RustIntV {
    I8,
    I16,
    I32,
    I64,
    U32,
    U64,
}

impl RustIntV {
    pub open spec fn text(self) -> Seq<char> {
        match self {
            RustIntV::I8 => "i8"@,
            RustIntV::I16 => "i16"@,
            RustIntV::I32 => "i32"@,
            RustIntV::I64 => "i64"@,
            RustIntV::U32 => "u32"@,
            RustIntV::U64 => "u64"@,
        }
    }

    pub open spec fn bits(self) -> int {
        match self {
            RustIntV::I8 => 8,
            RustIntV::I16 => 16,
            RustIntV::I32 => 32,
            RustIntV::I64 => 64,
            RustIntV::U32 => 32,
            RustIntV::U64 => 64,
        }
    }

    /// The number of values.
    pub open spec fn size(self) -> int {
        size_of_bits(self.bits())
    }

    pub open spec fn is_signed(self) -> bool {
        !(self is U32) && !(self is U64)
    }

    /// The value of the type that has the same low bits as `v`.
    pub open spec fn wrap(self, v: int) -> int {
        if self.is_signed() {
            signed(v % self.size(), self.bits())
        } else {
            v % self.size()
        }
    }

    pub open spec fn least(self) -> int {
        if self.is_signed() {
            -(self.size() / 2)
        } else {
            0
        }
    }
}

/// The number of values of so many bits.
pub open spec fn size_of_bits(bits: int) -> int {
    if bits == 8 {
        0x100
    } else if bits == 16 {
        0x1_0000
    } else if bits == 32 {
        0x1_0000_0000
    } else {
        0x1_0000_0000_0000_0000
    }
}

/// The number in two's complement whose bits are those of `u`.
pub open spec fn signed(u: int, bits: int) -> int {
    if u < size_of_bits(bits) / 2 {
        u
    } else {
        u - size_of_bits(bits)
    }
}

pub open spec fn two_to(n: int) -> int
    decreases n,
{
    if n <= 0 {
        1
    } else {
        2 * two_to(n - 1)
    }
}

/// The quotient, rounded towards zero.
pub open spec fn quotient(a: int, b: int) -> int {
    if a >= 0 && b > 0 {
        a / b
    } else if a >= 0 {
        -(a / (-b))
    } else if b > 0 {
        -((-a) / b)
    } else {
        (-a) / (-b)
    }
}

/// The remainder, with the sign of the dividend.
pub open spec fn remainder(a: int, b: int) -> int {
    let m = if b > 0 {
        b
    } else {
        -b
    };
    if a >= 0 {
        a % m
    } else {
        -((-a) % m)
    }
}

pub enum BitOpV {
    And,
    Or,
    Xor,
}

/// Two numbers combined bit by bit.
pub open spec fn bitwise(op: BitOpV, a: int, b: int, bits: nat) -> int
    decreases bits,
{
    if bits == 0 {
        0
    } else {
        let (x, y) = (a % 2 == 1, b % 2 == 1);
        let bit = match op {
            BitOpV::And => x && y,
            BitOpV::Or => x || y,
            BitOpV::Xor => x != y,
        };
        2 * bitwise(op, a / 2, b / 2, (bits - 1) as nat) + if bit {
            1int
        } else {
            0
        }
    }
}

/// How many bits are set.
pub open spec fn ones(u: int, bits: nat) -> int
    decreases bits,
{
    if bits == 0 {
        0
    } else {
        u % 2 + ones(u / 2, (bits - 1) as nat)
    }
}

/// How many bits are clear below the lowest one that is set.
pub open spec fn trailing(u: int, bits: nat) -> int
    decreases bits,
{
    if bits == 0 || u % 2 == 1 {
        0
    } else {
        1 + trailing(u / 2, (bits - 1) as nat)
    }
}

/// How many bits are clear above the highest one that is set.
pub open spec fn leading(u: int, bits: nat) -> int
    decreases bits,
{
    if bits == 0 || u >= two_to(bits - 1) {
        0
    } else {
        1 + leading(u, (bits - 1) as nat)
    }
}

/// The bits moved up by `r`, those that leave at the top coming in at the bottom.
pub open spec fn rotated(u: int, r: int, bits: int) -> int {
    (u * two_to(r)) % size_of_bits(bits) + u / two_to(bits - r)
}

pub enum InfixV {
    Div,
    Rem,
    And,
    Or,
    Xor,
    Eq,
    Ne,
    Lt,
    Gt,
    Le,
    Ge,
}

impl InfixV {
    pub open spec fn text(self) -> Seq<char> {
        match self {
            InfixV::Div => "/"@,
            InfixV::Rem => "%"@,
            InfixV::And => "&"@,
            InfixV::Or => "|"@,
            InfixV::Xor => "^"@,
            InfixV::Eq => "=="@,
            InfixV::Ne => "!="@,
            InfixV::Lt => "<"@,
            InfixV::Gt => ">"@,
            InfixV::Le => "<="@,
            InfixV::Ge => ">="@,
        }
    }

    /// What the operator gives of two values of the type; nothing where it panics. A
    /// comparison gives one or zero.
    pub open spec fn apply(self, t: RustIntV, a: int, b: int) -> Option<int> {
        let (x, y) = (a % t.size(), b % t.size());
        let n = t.bits() as nat;
        match self {
            InfixV::Div => if b == 0 || (t.is_signed() && a == t.least() && b == -1) {
                None
            } else {
                Some(quotient(a, b))
            },
            InfixV::Rem => if b == 0 || (t.is_signed() && a == t.least() && b == -1) {
                None
            } else {
                Some(remainder(a, b))
            },
            InfixV::And => Some(t.wrap(bitwise(BitOpV::And, x, y, n))),
            InfixV::Or => Some(t.wrap(bitwise(BitOpV::Or, x, y, n))),
            InfixV::Xor => Some(t.wrap(bitwise(BitOpV::Xor, x, y, n))),
            InfixV::Eq => Some(truth(a == b)),
            InfixV::Ne => Some(truth(a != b)),
            InfixV::Lt => Some(truth(a < b)),
            InfixV::Gt => Some(truth(a > b)),
            InfixV::Le => Some(truth(a <= b)),
            InfixV::Ge => Some(truth(a >= b)),
        }
    }
}

pub open spec fn truth(b: bool) -> int {
    if b {
        1
    } else {
        0
    }
}

pub enum MethodV {
    WrappingAdd,
    WrappingSub,
    WrappingMul,
    WrappingRem,
    WrappingShl,
    WrappingShr,
    RotateLeft,
    RotateRight,
    LeadingZeros,
    TrailingZeros,
    CountOnes,
}

impl MethodV {
    pub open spec fn text(self) -> Seq<char> {
        match self {
            MethodV::WrappingAdd => "wrapping_add"@,
            MethodV::WrappingSub => "wrapping_sub"@,
            MethodV::WrappingMul => "wrapping_mul"@,
            MethodV::WrappingRem => "wrapping_rem"@,
            MethodV::WrappingShl => "wrapping_shl"@,
            MethodV::WrappingShr => "wrapping_shr"@,
            MethodV::RotateLeft => "rotate_left"@,
            MethodV::RotateRight => "rotate_right"@,
            MethodV::LeadingZeros => "leading_zeros"@,
            MethodV::TrailingZeros => "trailing_zeros"@,
            MethodV::CountOnes => "count_ones"@,
        }
    }

    /// What the method gives of a value of the type and its argument.
    pub open spec fn apply(self, t: RustIntV, a: int, b: int) -> Option<int> {
        let u = a % t.size();
        let n = t.bits();
        match self {
            MethodV::WrappingAdd => Some(t.wrap(a + b)),
            MethodV::WrappingSub => Some(t.wrap(a - b)),
            MethodV::WrappingMul => Some(t.wrap(a * b)),
            MethodV::WrappingRem => if b == 0 {
                None
            } else {
                Some(remainder(a, b))
            },
            MethodV::WrappingShl => Some(t.wrap(a * two_to(b % n))),
            MethodV::WrappingShr => Some(a / two_to(b % n)),
            MethodV::RotateLeft => Some(t.wrap(rotated(u, b % n, n))),
            MethodV::RotateRight => Some(t.wrap(rotated(u, (n - b % n) % n, n))),
            MethodV::LeadingZeros => Some(leading(u, n as nat)),
            MethodV::TrailingZeros => Some(trailing(u, n as nat)),
            MethodV::CountOnes => Some(ones(u, n as nat)),
        }
    }

    /// Whether the method counts bits, which gives a `u32`.
    pub open spec fn counts(self) -> bool {
        self is LeadingZeros || self is TrailingZeros || self is CountOnes
    }
}

/// A Rust expression over two operands.
pub enum ExprV {
    First,
    Second,
    Zero,
    Paren(Box<ExprV>),
    Cast(Box<ExprV>, RustIntV),
    Infix(Box<ExprV>, InfixV, Box<ExprV>),
    Method(Box<ExprV>, MethodV, Box<ExprV>),
    Count(Box<ExprV>, MethodV),
    /// `i32::from(e)` of a Boolean.
    FromBool(Box<ExprV>),
}

impl ExprV {
    /// The text of the expression, where the operands are spelt `a` and `b`.
    pub open spec fn text(self, a: Seq<char>, b: Seq<char>) -> Seq<char>
        decreases self,
    {
        match self {
            ExprV::First => a,
            ExprV::Second => b,
            ExprV::Zero => "0"@,
            ExprV::Paren(e) => "("@ + e.text(a, b) + ")"@,
            ExprV::Cast(e, t) => e.text(a, b) + " as "@ + t.text(),
            ExprV::Infix(e, op, f) => e.text(a, b) + " "@ + op.text() + " "@ + f.text(a, b),
            ExprV::Method(e, m, f) => e.text(a, b) + "."@ + m.text() + "("@ + f.text(a, b) + ")"@,
            ExprV::Count(e, m) => e.text(a, b) + "."@ + m.text() + "("@ + ")"@,
            ExprV::FromBool(e) => "i32::from("@ + e.text(a, b) + ")"@,
        }
    }

    /// The type of the expression and its value, where the operands have the type `t`
    /// and the values `x` and `y`; nothing where it panics.
    pub open spec fn value(self, t: RustIntV, x: int, y: int) -> Option<(RustIntV, int)>
        decreases self,
    {
        match self {
            ExprV::First => Some((t, x)),
            ExprV::Second => Some((t, y)),
            ExprV::Zero => Some((t, 0int)),
            ExprV::Paren(e) => e.value(t, x, y),
            ExprV::Cast(e, to) => match e.value(t, x, y) {
                None => None,
                Some((_, v)) => Some((to, to.wrap(v))),
            },
            ExprV::Infix(e, op, f) => match (e.value(t, x, y), f.value(t, x, y)) {
                (Some((u, v)), Some((_, k))) => match op.apply(u, v, k) {
                    None => None,
                    Some(r) => Some((u, r)),
                },
                _ => None,
            },
            ExprV::Method(e, m, f) => match (e.value(t, x, y), f.value(t, x, y)) {
                (Some((u, v)), Some((_, k))) => match m.apply(u, v, k) {
                    None => None,
                    Some(r) => Some((u, r)),
                },
                _ => None,
            },
            ExprV::Count(e, m) => match e.value(t, x, y) {
                None => None,
                Some((u, v)) => match m.apply(u, v, 0) {
                    None => None,
                    Some(r) => Some((RustIntV::U32, r)),
                },
            },
            ExprV::FromBool(e) => match e.value(t, x, y) {
                None => None,
                Some((_, v)) => Some((RustIntV::I32, v)),
            },
        }
    }
}

// ---------------------------------------------------------------------------
// WebAssembly
// ---------------------------------------------------------------------------
/// What an integer operator of WebAssembly gives of two numbers of so many bits, taken
/// as unsigned; nothing where it traps.
pub open spec fn wasm_integer(op: IntOp, bits: int, a: int, b: int) -> Option<int> {
    let size = size_of_bits(bits);
    let (x, y) = (signed(a, bits), signed(b, bits));
    let k = b % bits;
    match op {
        IntOp::Clz => Some(leading(a, bits as nat)),
        IntOp::Ctz => Some(trailing(a, bits as nat)),
        IntOp::Popcnt => Some(ones(a, bits as nat)),
        IntOp::Add => Some((a + b) % size),
        IntOp::Sub => Some((a - b + size) % size),
        IntOp::Mul => Some((a * b) % size),
        IntOp::DivS => if y == 0 || quotient(x, y) == size / 2 {
            None
        } else {
            Some(quotient(x, y) % size)
        },
        IntOp::DivU => if b == 0 {
            None
        } else {
            Some(a / b)
        },
        IntOp::RemS => if y == 0 {
            None
        } else {
            Some(remainder(x, y) % size)
        },
        IntOp::RemU => if b == 0 {
            None
        } else {
            Some(a % b)
        },
        IntOp::And => Some(bitwise(BitOpV::And, a, b, bits as nat) % size),
        IntOp::Or => Some(bitwise(BitOpV::Or, a, b, bits as nat) % size),
        IntOp::Xor => Some(bitwise(BitOpV::Xor, a, b, bits as nat) % size),
        IntOp::Shl => Some((a * two_to(k)) % size),
        IntOp::ShrS => Some((x / two_to(k)) % size),
        IntOp::ShrU => Some(a / two_to(k)),
        IntOp::Rotl => Some(rotated(a, k, bits) % size),
        IntOp::Rotr => Some(rotated(a, (bits - k) % bits, bits) % size),
        IntOp::Eqz => Some(truth(a == 0)),
        IntOp::Eq => Some(truth(a == b)),
        IntOp::Ne => Some(truth(a != b)),
        IntOp::LtS => Some(truth(x < y)),
        IntOp::LtU => Some(truth(a < b)),
        IntOp::GtS => Some(truth(x > y)),
        IntOp::GtU => Some(truth(a > b)),
        IntOp::LeS => Some(truth(x <= y)),
        IntOp::LeU => Some(truth(a <= b)),
        IntOp::GeS => Some(truth(x >= y)),
        IntOp::GeU => Some(truth(a >= b)),
    }
}

/// Whether an operator tests or compares, which gives an i32.
pub open spec fn compares(op: IntOp) -> bool {
    op is Eqz || op is Eq || op is Ne || op is LtS || op is LtU || op is GtS || op is GtU
        || op is LeS || op is LeU || op is GeS || op is GeU
}

pub open spec fn takes_one(op: IntOp) -> bool {
    op is Clz || op is Ctz || op is Popcnt || op is Eqz
}

pub open spec fn rust_int(ty: IntTy) -> RustIntV {
    match ty {
        IntTy::I32 => RustIntV::I32,
        IntTy::I64 => RustIntV::I64,
    }
}

pub open spec fn unsigned_int(ty: IntTy) -> RustIntV {
    match ty {
        IntTy::I32 => RustIntV::U32,
        IntTy::I64 => RustIntV::U64,
    }
}

/// Whether the expression computes the operator: of the operands, taken as signed, it
/// gives the operator's result, taken as signed, and it panics exactly where the
/// operator traps.
pub open spec fn computes(e: ExprV, ty: IntTy, op: IntOp) -> bool {
    let t = rust_int(ty);
    let to = if compares(op) {
        RustIntV::I32
    } else {
        t
    };
    forall|a: int, b: int|
        0 <= a < t.size() && 0 <= b < t.size() ==> {
            let got = #[trigger] e.value(t, signed(a, t.bits()), signed(b, t.bits()));
            match wasm_integer(op, t.bits(), a, b) {
                None => got is None,
                Some(r) => got == Some((to, signed(r, to.bits()))),
            }
        }
}

// ---------------------------------------------------------------------------
// The expression of each operator
// ---------------------------------------------------------------------------
spec fn first() -> Box<ExprV> {
    Box::new(ExprV::First)
}

spec fn second() -> Box<ExprV> {
    Box::new(ExprV::Second)
}

spec fn paren(e: ExprV) -> Box<ExprV> {
    Box::new(ExprV::Paren(Box::new(e)))
}

/// The operator between the operands.
spec fn infix(op: InfixV) -> ExprV {
    ExprV::Infix(first(), op, second())
}

/// The operator between the operands, taken as unsigned.
spec fn unsigned_infix(op: InfixV, ty: IntTy) -> ExprV {
    let u = unsigned_int(ty);
    ExprV::Infix(paren(ExprV::Cast(first(), u)), op, paren(ExprV::Cast(second(), u)))
}

/// The method of the first operand with the second as a bit count.
spec fn shift(m: MethodV) -> ExprV {
    ExprV::Method(first(), m, Box::new(ExprV::Cast(second(), RustIntV::U32)))
}

spec fn method(m: MethodV) -> ExprV {
    ExprV::Method(first(), m, second())
}

spec fn count(m: MethodV, ty: IntTy) -> ExprV {
    ExprV::Paren(
        Box::new(ExprV::Cast(Box::new(ExprV::Count(first(), m)), rust_int(ty))),
    )
}

spec fn from_bool(e: ExprV) -> ExprV {
    ExprV::FromBool(Box::new(e))
}

spec fn expr_of(ty: IntTy, op: IntOp) -> ExprV {
    let (t, u) = (rust_int(ty), unsigned_int(ty));
    match op {
        IntOp::Clz => count(MethodV::LeadingZeros, ty),
        IntOp::Ctz => count(MethodV::TrailingZeros, ty),
        IntOp::Popcnt => count(MethodV::CountOnes, ty),
        IntOp::Add => method(MethodV::WrappingAdd),
        IntOp::Sub => method(MethodV::WrappingSub),
        IntOp::Mul => method(MethodV::WrappingMul),
        IntOp::DivS => infix(InfixV::Div),
        IntOp::DivU => ExprV::Cast(paren(unsigned_infix(InfixV::Div, ty)), t),
        IntOp::RemS => method(MethodV::WrappingRem),
        IntOp::RemU => ExprV::Cast(paren(unsigned_infix(InfixV::Rem, ty)), t),
        IntOp::And => ExprV::Paren(Box::new(infix(InfixV::And))),
        IntOp::Or => ExprV::Paren(Box::new(infix(InfixV::Or))),
        IntOp::Xor => ExprV::Paren(Box::new(infix(InfixV::Xor))),
        IntOp::Shl => shift(MethodV::WrappingShl),
        IntOp::ShrS => shift(MethodV::WrappingShr),
        IntOp::ShrU => ExprV::Paren(
            Box::new(
                ExprV::Cast(
                    Box::new(
                        ExprV::Method(
                            paren(ExprV::Cast(first(), u)),
                            MethodV::WrappingShr,
                            Box::new(ExprV::Cast(second(), RustIntV::U32)),
                        ),
                    ),
                    t,
                ),
            ),
        ),
        IntOp::Rotl => shift(MethodV::RotateLeft),
        IntOp::Rotr => shift(MethodV::RotateRight),
        IntOp::Eqz => from_bool(ExprV::Infix(first(), InfixV::Eq, Box::new(ExprV::Zero))),
        IntOp::Eq => from_bool(infix(InfixV::Eq)),
        IntOp::Ne => from_bool(infix(InfixV::Ne)),
        IntOp::LtS => from_bool(infix(InfixV::Lt)),
        IntOp::LtU => from_bool(unsigned_infix(InfixV::Lt, ty)),
        IntOp::GtS => from_bool(infix(InfixV::Gt)),
        IntOp::GtU => from_bool(unsigned_infix(InfixV::Gt, ty)),
        IntOp::LeS => from_bool(infix(InfixV::Le)),
        IntOp::LeU => from_bool(unsigned_infix(InfixV::Le, ty)),
        IntOp::GeS => from_bool(infix(InfixV::Ge)),
        IntOp::GeU => from_bool(unsigned_infix(InfixV::Ge, ty)),
    }
}

// ---------------------------------------------------------------------------
// Arithmetic
// ---------------------------------------------------------------------------
proof fn lemma_signed(a: int, bits: int)
    requires
        0 <= a < size_of_bits(bits),
    ensures
        signed(a, bits) % size_of_bits(bits) == a,
        -(size_of_bits(bits) / 2) <= signed(a, bits) < size_of_bits(bits) / 2,
{
    let n = size_of_bits(bits);
    if a >= n / 2 {
        lemma_mod_multiples_vanish(-1, a, n);
    }
}

proof fn lemma_signed_back(v: int, bits: int)
    requires
        -(size_of_bits(bits) / 2) <= v < size_of_bits(bits) / 2,
    ensures
        signed(v % size_of_bits(bits), bits) == v,
{
    let n = size_of_bits(bits);
    if v < 0 {
        lemma_mod_multiples_vanish(1, v, n);
        assert((v + n) % n == v + n);
    }
}

/// How far the signed reading is from the unsigned one.
spec fn off(a: int, bits: int) -> int {
    if a < size_of_bits(bits) / 2 {
        0
    } else {
        1
    }
}

proof fn lemma_same_residue(v: int, k: int, n: int)
    requires
        n > 0,
    ensures
        (v + n * k) % n == v % n,
{
    lemma_mod_multiples_vanish(k, v, n);
}

#[verifier::rlimit(40)]
proof fn lemma_sums(a: int, b: int, bits: int)
    requires
        0 <= a < size_of_bits(bits),
        0 <= b < size_of_bits(bits),
    ensures
        ({
            let n = size_of_bits(bits);
            let (x, y) = (signed(a, bits), signed(b, bits));
            &&& (x + y) % n == (a + b) % n
            &&& (x - y) % n == (a - b + n) % n
            &&& (x * y) % n == (a * b) % n
        }),
{
    let n = size_of_bits(bits);
    let (x, y) = (signed(a, bits), signed(b, bits));
    let (p, q) = (off(a, bits), off(b, bits));
    assert(x == a - n * p && y == b - n * q);
    lemma_same_residue(a + b, -p - q, n);
    assert(x + y == (a + b) + n * (-p - q)) by (nonlinear_arith)
        requires
            x == a - n * p,
            y == b - n * q,
    ;
    lemma_same_residue(a - b + n, q - p - 1, n);
    assert(x - y == (a - b + n) + n * (q - p - 1)) by (nonlinear_arith)
        requires
            x == a - n * p,
            y == b - n * q,
    ;
    if p == 0 && q == 0 {
    } else if p == 0 {
        lemma_same_residue(a * b, -a, n);
        assert(a * (b - n) == a * b + n * (-a)) by (nonlinear_arith);
    } else if q == 0 {
        lemma_same_residue(a * b, -b, n);
        assert((a - n) * b == a * b + n * (-b)) by (nonlinear_arith);
    } else {
        let k = n - a - b;
        lemma_same_residue(a * b, k, n);
        assert((a - n) * (b - n) == a * b + n * k) by (nonlinear_arith)
            requires
                k == n - a - b,
        ;
    }
}

proof fn lemma_scaled(a: int, c: int, bits: int)
    requires
        0 <= a < size_of_bits(bits),
    ensures
        (signed(a, bits) * c) % size_of_bits(bits) == (a * c) % size_of_bits(bits),
{
    let n = size_of_bits(bits);
    let x = signed(a, bits);
    let p = off(a, bits);
    lemma_same_residue(a * c, -p * c, n);
    assert(x * c == a * c + n * (-p * c)) by (nonlinear_arith)
        requires
            x == a - n * p,
    ;
}

/// The bit count of a shift: the cast to `u32` keeps what the shift looks at.
#[verifier::rlimit(40)]
proof fn lemma_bit_count(b: int, ty: IntTy)
    requires
        0 <= b < rust_int(ty).size(),
    ensures
        RustIntV::U32.wrap(signed(b, rust_int(ty).bits())) % rust_int(ty).bits() == b
            % rust_int(ty).bits(),
{
    let t = rust_int(ty);
    let (bits, n) = (t.bits(), t.size());
    let y = signed(b, bits);
    let m: int = 0x1_0000_0000;
    let r = y % m;
    let q = y / m;
    lemma_fundamental_div_mod(y, m);
    let p = off(b, bits);
    assert(y == b - n * p);
    let c = m / bits;
    let d = n / bits;
    assert(m == bits * c && n == bits * d);
    lemma_same_residue(r, c * q, bits);
    lemma_same_residue(b, -d * p, bits);
    assert(r + bits * (c * q) == y) by (nonlinear_arith)
        requires
            y == m * q + r,
            m == bits * c,
    ;
    assert(b + bits * (-d * p) == y) by (nonlinear_arith)
        requires
            y == b - n * p,
            n == bits * d,
    ;
}

proof fn lemma_two_to(n: int)
    ensures
        two_to(n) >= 1,
    decreases n,
{
    if n > 0 {
        lemma_two_to(n - 1);
    }
}

/// A shifted number stays in range.
#[verifier::rlimit(40)]
proof fn lemma_shifted(x: int, k: int, low: int, high: int)
    requires
        low <= x < high,
        low <= 0 < high,
    ensures
        low <= x / two_to(k) < high,
{
    let d = two_to(k);
    lemma_two_to(k);
    let q = x / d;
    lemma_fundamental_div_mod(x, d);
    assert(0 <= x % d < d);
    if x >= 0 {
        lemma_div_nonincreasing(x, d);
        assert(q >= 0) by (nonlinear_arith)
            requires
                x == d * q + x % d,
                x % d < d,
                x >= 0,
                d >= 1,
        ;
    } else {
        assert(x <= q <= 0) by (nonlinear_arith)
            requires
                x == d * q + x % d,
                0 <= x % d < d,
                x < 0,
                d >= 1,
        ;
    }
}

#[verifier::rlimit(40)]
proof fn lemma_quotient(x: int, y: int, half: int)
    requires
        half > 1,
        -half <= x < half,
        -half <= y < half,
        y != 0,
    ensures
        quotient(x, y) == half <==> x == -half && y == -1,
        quotient(x, y) != half ==> -half <= quotient(x, y) < half,
        -half <= remainder(x, y) < half,
{
    let a = if x >= 0 {
        x
    } else {
        -x
    };
    let b = if y > 0 {
        y
    } else {
        -y
    };
    lemma_div_nonincreasing(a, b);
    let q = a / b;
    lemma_fundamental_div_mod(a, b);
    assert(0 <= a % b < b);
    assert(q >= 0) by (nonlinear_arith)
        requires
            a == b * q + a % b,
            a % b < b,
            a >= 0,
            b >= 1,
    ;
    if b > 1 {
        assert(q < half) by (nonlinear_arith)
            requires
                a == b * q + a % b,
                0 <= a % b,
                a <= half,
                b > 1,
                half > 1,
        ;
    } else {
        assert(q == a) by (nonlinear_arith)
            requires
                a == b * q + a % b,
                0 <= a % b < b,
                b == 1,
        ;
    }
    assert(a % b <= a) by (nonlinear_arith)
        requires
            a == b * q + a % b,
            q >= 0,
            b >= 1,
    ;
}

proof fn lemma_counts(u: int, bits: nat)
    requires
        u >= 0,
    ensures
        0 <= leading(u, bits) <= bits,
        0 <= trailing(u, bits) <= bits,
        0 <= ones(u, bits) <= bits,
    decreases bits,
{
    if bits > 0 {
        lemma_counts(u, (bits - 1) as nat);
        lemma_counts(u / 2, (bits - 1) as nat);
    }
}

// ---------------------------------------------------------------------------
// Each operator
// ---------------------------------------------------------------------------
/// The value that an expression should have.
spec fn wanted(ty: IntTy, op: IntOp, a: int, b: int) -> Option<(RustIntV, int)> {
    let t = rust_int(ty);
    let to = if compares(op) {
        RustIntV::I32
    } else {
        t
    };
    match wasm_integer(op, t.bits(), a, b) {
        None => None,
        Some(r) => Some((to, signed(r, to.bits()))),
    }
}

spec fn given(ty: IntTy, op: IntOp, a: int, b: int) -> Option<(RustIntV, int)> {
    let t = rust_int(ty);
    expr_of(ty, op).value(t, signed(a, t.bits()), signed(b, t.bits()))
}

spec fn typed(t: RustIntV, v: Option<int>) -> Option<(RustIntV, int)> {
    match v {
        None => None,
        Some(r) => Some((t, r)),
    }
}

proof fn lemma_operands(t: RustIntV, x: int, y: int)
    ensures
        first().value(t, x, y) == Some((t, x)),
        second().value(t, x, y) == Some((t, y)),
        ExprV::Zero.value(t, x, y) == Some((t, 0int)),
{
}

proof fn lemma_value_plain(t: RustIntV, x: int, y: int, i: InfixV, m: MethodV)
    ensures
        infix(i).value(t, x, y) == typed(t, i.apply(t, x, y)),
        method(m).value(t, x, y) == typed(t, m.apply(t, x, y)),
        shift(m).value(t, x, y) == typed(t, m.apply(t, x, RustIntV::U32.wrap(y))),
        ExprV::Paren(Box::new(infix(i))).value(t, x, y) == typed(t, i.apply(t, x, y)),
        from_bool(infix(i)).value(t, x, y) == typed(RustIntV::I32, i.apply(t, x, y)),
{
    lemma_operands(t, x, y);
    let c = ExprV::Cast(second(), RustIntV::U32);
    assert(c.value(t, x, y) == Some((RustIntV::U32, RustIntV::U32.wrap(y))));
    assert(infix(i).value(t, x, y) == typed(t, i.apply(t, x, y)));
}

proof fn lemma_value_unsigned(ty: IntTy, x: int, y: int, i: InfixV)
    ensures
        ({
            let (t, u) = (rust_int(ty), unsigned_int(ty));
            let v = i.apply(u, u.wrap(x), u.wrap(y));
            &&& from_bool(unsigned_infix(i, ty)).value(t, x, y) == typed(RustIntV::I32, v)
            &&& ExprV::Cast(paren(unsigned_infix(i, ty)), t).value(t, x, y) == match v {
                None => None,
                Some(r) => Some((t, t.wrap(r))),
            }
        }),
{
    let (t, u) = (rust_int(ty), unsigned_int(ty));
    lemma_operands(t, x, y);
    let (c, d) = (ExprV::Cast(first(), u), ExprV::Cast(second(), u));
    assert(c.value(t, x, y) == Some((u, u.wrap(x))));
    assert(d.value(t, x, y) == Some((u, u.wrap(y))));
    assert(paren(c).value(t, x, y) == Some((u, u.wrap(x))));
    assert(paren(d).value(t, x, y) == Some((u, u.wrap(y))));
    let e = unsigned_infix(i, ty);
    assert(e.value(t, x, y) == typed(u, i.apply(u, u.wrap(x), u.wrap(y))));
    assert(paren(e).value(t, x, y) == e.value(t, x, y));
}

proof fn lemma_value_counted(ty: IntTy, x: int, y: int, m: MethodV)
    requires
        m.counts(),
    ensures
        ({
            let t = rust_int(ty);
            count(m, ty).value(t, x, y) == Some((t, t.wrap(m.apply(t, x, 0)->0)))
        }),
{
    let t = rust_int(ty);
    lemma_operands(t, x, y);
    let e = ExprV::Count(first(), m);
    assert(e.value(t, x, y) == Some((RustIntV::U32, m.apply(t, x, 0)->0)));
    let c = ExprV::Cast(Box::new(e), t);
    assert(c.value(t, x, y) == Some((t, t.wrap(m.apply(t, x, 0)->0))));
}

#[verifier::rlimit(40)]
proof fn lemma_value_shifted(ty: IntTy, x: int, y: int)
    ensures
        ({
            let (t, u) = (rust_int(ty), unsigned_int(ty));
            let v = MethodV::WrappingShr.apply(u, u.wrap(x), RustIntV::U32.wrap(y));
            expr_of(ty, IntOp::ShrU).value(t, x, y) == Some((t, t.wrap(v->0)))
        }),
{
    let (t, u) = (rust_int(ty), unsigned_int(ty));
    lemma_operands(t, x, y);
    let (c, d) = (ExprV::Cast(first(), u), ExprV::Cast(second(), RustIntV::U32));
    assert(c.value(t, x, y) == Some((u, u.wrap(x))));
    assert(d.value(t, x, y) == Some((RustIntV::U32, RustIntV::U32.wrap(y))));
    assert(paren(c).value(t, x, y) == Some((u, u.wrap(x))));
    let e = ExprV::Method(paren(c), MethodV::WrappingShr, Box::new(d));
    assert(e.value(t, x, y) == typed(
        u,
        MethodV::WrappingShr.apply(u, u.wrap(x), RustIntV::U32.wrap(y)),
    ));
    let f = ExprV::Cast(Box::new(e), t);
    assert(f.value(t, x, y) == Some((t, t.wrap((e.value(t, x, y)->0).1))));
}

proof fn lemma_small(r: int, bits: int)
    requires
        0 <= r < size_of_bits(bits),
    ensures
        r % size_of_bits(bits) == r,
{
}

proof fn lemma_sums_right(ty: IntTy, op: IntOp, a: int, b: int)
    requires
        0 <= a < rust_int(ty).size(),
        0 <= b < rust_int(ty).size(),
        op is Add || op is Sub || op is Mul,
    ensures
        given(ty, op, a, b) == wanted(ty, op, a, b),
{
    let t = rust_int(ty);
    let (x, y) = (signed(a, t.bits()), signed(b, t.bits()));
    lemma_sums(a, b, t.bits());
    let m = match op {
        IntOp::Add => MethodV::WrappingAdd,
        IntOp::Sub => MethodV::WrappingSub,
        _ => MethodV::WrappingMul,
    };
    lemma_value_plain(t, x, y, InfixV::Eq, m);
}

#[verifier::rlimit(40)]
proof fn lemma_counts_right(ty: IntTy, op: IntOp, a: int, b: int)
    requires
        0 <= a < rust_int(ty).size(),
        0 <= b < rust_int(ty).size(),
        op is Clz || op is Ctz || op is Popcnt,
    ensures
        given(ty, op, a, b) == wanted(ty, op, a, b),
{
    let t = rust_int(ty);
    let (x, y) = (signed(a, t.bits()), signed(b, t.bits()));
    lemma_signed(a, t.bits());
    lemma_counts(a, t.bits() as nat);
    let m = match op {
        IntOp::Clz => MethodV::LeadingZeros,
        IntOp::Ctz => MethodV::TrailingZeros,
        _ => MethodV::CountOnes,
    };
    lemma_value_counted(ty, x, y, m);
    let r = wasm_integer(op, t.bits(), a, b)->0;
    lemma_small(r, t.bits());
}

#[verifier::rlimit(40)]
proof fn lemma_signed_division_right(ty: IntTy, op: IntOp, a: int, b: int)
    requires
        0 <= a < rust_int(ty).size(),
        0 <= b < rust_int(ty).size(),
        op is DivS || op is RemS,
    ensures
        given(ty, op, a, b) == wanted(ty, op, a, b),
{
    let t = rust_int(ty);
    let (bits, n) = (t.bits(), t.size());
    let (x, y) = (signed(a, bits), signed(b, bits));
    lemma_signed(a, bits);
    lemma_signed(b, bits);
    lemma_value_plain(t, x, y, InfixV::Div, MethodV::WrappingRem);
    if y != 0 {
        lemma_quotient(x, y, n / 2);
        if quotient(x, y) != n / 2 {
            lemma_signed_back(quotient(x, y), bits);
        }
        lemma_signed_back(remainder(x, y), bits);
    }
}

#[verifier::rlimit(40)]
proof fn lemma_unsigned_division_right(ty: IntTy, op: IntOp, a: int, b: int)
    requires
        0 <= a < rust_int(ty).size(),
        0 <= b < rust_int(ty).size(),
        op is DivU || op is RemU,
    ensures
        given(ty, op, a, b) == wanted(ty, op, a, b),
{
    let (t, u) = (rust_int(ty), unsigned_int(ty));
    let bits = t.bits();
    let (x, y) = (signed(a, bits), signed(b, bits));
    lemma_signed(a, bits);
    lemma_signed(b, bits);
    assert(u.wrap(x) == a && u.wrap(y) == b);
    let i = if op is DivU {
        InfixV::Div
    } else {
        InfixV::Rem
    };
    lemma_value_unsigned(ty, x, y, i);
    if b != 0 {
        lemma_div_nonincreasing(a, b);
        lemma_fundamental_div_mod(a, b);
        assert(a / b >= 0) by (nonlinear_arith)
            requires
                a >= 0,
                b > 0,
        ;
        assert(0 <= a % b < b);
        lemma_small(a / b, bits);
        lemma_small(a % b, bits);
        assert(quotient(a, b) == a / b && remainder(a, b) == a % b);
    }
}

proof fn lemma_bits_right(ty: IntTy, op: IntOp, a: int, b: int)
    requires
        0 <= a < rust_int(ty).size(),
        0 <= b < rust_int(ty).size(),
        op is And || op is Or || op is Xor,
    ensures
        given(ty, op, a, b) == wanted(ty, op, a, b),
{
    let t = rust_int(ty);
    let (x, y) = (signed(a, t.bits()), signed(b, t.bits()));
    lemma_signed(a, t.bits());
    lemma_signed(b, t.bits());
    let i = match op {
        IntOp::And => InfixV::And,
        IntOp::Or => InfixV::Or,
        _ => InfixV::Xor,
    };
    lemma_value_plain(t, x, y, i, MethodV::WrappingAdd);
}

#[verifier::rlimit(40)]
proof fn lemma_shifts_right(ty: IntTy, op: IntOp, a: int, b: int)
    requires
        0 <= a < rust_int(ty).size(),
        0 <= b < rust_int(ty).size(),
        op is Shl || op is ShrS || op is ShrU || op is Rotl || op is Rotr,
    ensures
        given(ty, op, a, b) == wanted(ty, op, a, b),
{
    let (t, u) = (rust_int(ty), unsigned_int(ty));
    let (bits, n) = (t.bits(), t.size());
    let (x, y) = (signed(a, bits), signed(b, bits));
    lemma_signed(a, bits);
    lemma_bit_count(b, ty);
    let k = b % bits;
    match op {
        IntOp::Shl => {
            lemma_value_plain(t, x, y, InfixV::Eq, MethodV::WrappingShl);
            lemma_scaled(a, two_to(k), bits);
        },
        IntOp::ShrS => {
            lemma_value_plain(t, x, y, InfixV::Eq, MethodV::WrappingShr);
            lemma_shifted(x, k, -(n / 2), n / 2);
            lemma_signed_back(x / two_to(k), bits);
        },
        IntOp::ShrU => {
            lemma_value_shifted(ty, x, y);
            assert(u.wrap(x) == a);
            lemma_shifted(a, k, 0, n);
            lemma_small(a / two_to(k), bits);
        },
        IntOp::Rotl => {
            lemma_value_plain(t, x, y, InfixV::Eq, MethodV::RotateLeft);
        },
        _ => {
            lemma_value_plain(t, x, y, InfixV::Eq, MethodV::RotateRight);
        },
    }
}

proof fn lemma_truth_bits(b: bool)
    ensures
        signed(truth(b), 32) == truth(b),
{
}

#[verifier::rlimit(40)]
proof fn lemma_unsigned_comparisons_right(ty: IntTy, op: IntOp, a: int, b: int)
    requires
        0 <= a < rust_int(ty).size(),
        0 <= b < rust_int(ty).size(),
        op is LtU || op is GtU || op is LeU || op is GeU,
    ensures
        given(ty, op, a, b) == wanted(ty, op, a, b),
{
    let (t, u) = (rust_int(ty), unsigned_int(ty));
    let bits = t.bits();
    let (x, y) = (signed(a, bits), signed(b, bits));
    lemma_signed(a, bits);
    lemma_signed(b, bits);
    assert(u.wrap(x) == a && u.wrap(y) == b);
    match op {
        IntOp::LtU => {
            lemma_value_unsigned(ty, x, y, InfixV::Lt);
            lemma_truth_bits(a < b);
        },
        IntOp::GtU => {
            lemma_value_unsigned(ty, x, y, InfixV::Gt);
            lemma_truth_bits(a > b);
        },
        IntOp::LeU => {
            lemma_value_unsigned(ty, x, y, InfixV::Le);
            lemma_truth_bits(a <= b);
        },
        _ => {
            lemma_value_unsigned(ty, x, y, InfixV::Ge);
            lemma_truth_bits(a >= b);
        },
    }
}

#[verifier::rlimit(40)]
proof fn lemma_comparisons_right(ty: IntTy, op: IntOp, a: int, b: int)
    requires
        0 <= a < rust_int(ty).size(),
        0 <= b < rust_int(ty).size(),
        op is Eqz || op is Eq || op is Ne || op is LtS || op is GtS || op is LeS || op is GeS,
    ensures
        given(ty, op, a, b) == wanted(ty, op, a, b),
{
    let t = rust_int(ty);
    let bits = t.bits();
    let (x, y) = (signed(a, bits), signed(b, bits));
    let m = MethodV::WrappingAdd;
    match op {
        IntOp::Eqz => {
            lemma_operands(t, x, y);
            let e = ExprV::Infix(first(), InfixV::Eq, Box::new(ExprV::Zero));
            assert(e.value(t, x, y) == Some((t, truth(x == 0))));
            lemma_truth_bits(a == 0);
        },
        IntOp::Eq => {
            lemma_value_plain(t, x, y, InfixV::Eq, m);
            lemma_truth_bits(a == b);
        },
        IntOp::Ne => {
            lemma_value_plain(t, x, y, InfixV::Ne, m);
            lemma_truth_bits(a != b);
        },
        IntOp::LtS => {
            lemma_value_plain(t, x, y, InfixV::Lt, m);
            lemma_truth_bits(x < y);
        },
        IntOp::GtS => {
            lemma_value_plain(t, x, y, InfixV::Gt, m);
            lemma_truth_bits(x > y);
        },
        IntOp::LeS => {
            lemma_value_plain(t, x, y, InfixV::Le, m);
            lemma_truth_bits(x <= y);
        },
        _ => {
            lemma_value_plain(t, x, y, InfixV::Ge, m);
            lemma_truth_bits(x >= y);
        },
    }
}

#[verifier::rlimit(40)]
proof fn lemma_value(ty: IntTy, op: IntOp, a: int, b: int)
    requires
        0 <= a < rust_int(ty).size(),
        0 <= b < rust_int(ty).size(),
    ensures
        given(ty, op, a, b) == wanted(ty, op, a, b),
{
    match op {
        IntOp::Clz | IntOp::Ctz | IntOp::Popcnt => lemma_counts_right(ty, op, a, b),
        IntOp::Add | IntOp::Sub | IntOp::Mul => lemma_sums_right(ty, op, a, b),
        IntOp::DivS | IntOp::RemS => lemma_signed_division_right(ty, op, a, b),
        IntOp::DivU | IntOp::RemU => lemma_unsigned_division_right(ty, op, a, b),
        IntOp::And | IntOp::Or | IntOp::Xor => lemma_bits_right(ty, op, a, b),
        IntOp::Shl | IntOp::ShrS | IntOp::ShrU | IntOp::Rotl | IntOp::Rotr => {
            lemma_shifts_right(ty, op, a, b)
        },
        IntOp::LtU | IntOp::GtU | IntOp::LeU | IntOp::GeU => {
            lemma_unsigned_comparisons_right(ty, op, a, b)
        },
        _ => lemma_comparisons_right(ty, op, a, b),
    }
}

#[verifier::rlimit(40)]
proof fn lemma_computes(ty: IntTy, op: IntOp)
    ensures
        computes(expr_of(ty, op), ty, op),
{
    let t = rust_int(ty);
    let e = expr_of(ty, op);
    let to = if compares(op) {
        RustIntV::I32
    } else {
        t
    };
    assert forall|a: int, b: int| 0 <= a < t.size() && 0 <= b < t.size() implies {
        let got = #[trigger] e.value(t, signed(a, t.bits()), signed(b, t.bits()));
        match wasm_integer(op, t.bits(), a, b) {
            None => got is None,
            Some(r) => got == Some((to, signed(r, to.bits()))),
        }
    } by {
        lemma_value(ty, op, a, b);
    }
}

/// The code that an integer operator pushes.
spec fn integer_code(ty: IntTy, op: IntOp, a: Seq<char>, b: Seq<char>) -> Seq<char> {
    let u = unsigned_int(ty).text();
    let t = rust_int(ty).text();
    match op {
        IntOp::Clz => ("("@ + a + "."@ + "leading_zeros"@ + "() as "@ + t + ")"@),
        IntOp::Ctz => ("("@ + a + "."@ + "trailing_zeros"@ + "() as "@ + t + ")"@),
        IntOp::Popcnt => ("("@ + a + "."@ + "count_ones"@ + "() as "@ + t + ")"@),
        IntOp::Add => (a + "."@ + "wrapping_add"@ + "("@ + b + ")"@),
        IntOp::Sub => (a + "."@ + "wrapping_sub"@ + "("@ + b + ")"@),
        IntOp::Mul => (a + "."@ + "wrapping_mul"@ + "("@ + b + ")"@),
        IntOp::DivS => (a + " / "@ + b),
        IntOp::DivU => ("(("@ + a + " as "@ + u + ") "@ + "/"@ + " ("@ + b + " as "@ + u
            + ")) as "@ + t),
        IntOp::RemS => (a + ".wrapping_rem("@ + b + ")"@),
        IntOp::RemU => ("(("@ + a + " as "@ + u + ") "@ + "%"@ + " ("@ + b + " as "@ + u
            + ")) as "@ + t),
        IntOp::And => ("("@ + a + " "@ + "&"@ + " "@ + b + ")"@),
        IntOp::Or => ("("@ + a + " "@ + "|"@ + " "@ + b + ")"@),
        IntOp::Xor => ("("@ + a + " "@ + "^"@ + " "@ + b + ")"@),
        IntOp::Shl => (a + "."@ + "wrapping_shl"@ + "("@ + b + " as u32)"@),
        IntOp::ShrS => (a + "."@ + "wrapping_shr"@ + "("@ + b + " as u32)"@),
        IntOp::ShrU => ("(("@ + a + " as "@ + u + ")."@ + "wrapping_shr"@ + "("@ + b
            + " as u32) as "@ + t + ")"@),
        IntOp::Rotl => (a + "."@ + "rotate_left"@ + "("@ + b + " as u32)"@),
        IntOp::Rotr => (a + "."@ + "rotate_right"@ + "("@ + b + " as u32)"@),
        IntOp::Eqz => ("i32::from("@ + a + " == 0)"@),
        IntOp::Eq => ("i32::from("@ + a + " "@ + "=="@ + " "@ + b + ")"@),
        IntOp::Ne => ("i32::from("@ + a + " "@ + "!="@ + " "@ + b + ")"@),
        IntOp::LtS => ("i32::from("@ + a + " "@ + "<"@ + " "@ + b + ")"@),
        IntOp::LtU => ("i32::from(("@ + a + " as "@ + u + ") "@ + "<"@ + " ("@ + b + " as "@ + u
            + "))"@),
        IntOp::GtS => ("i32::from("@ + a + " "@ + ">"@ + " "@ + b + ")"@),
        IntOp::GtU => ("i32::from(("@ + a + " as "@ + u + ") "@ + ">"@ + " ("@ + b + " as "@ + u
            + "))"@),
        IntOp::LeS => ("i32::from("@ + a + " "@ + "<="@ + " "@ + b + ")"@),
        IntOp::LeU => ("i32::from(("@ + a + " as "@ + u + ") "@ + "<="@ + " ("@ + b + " as "@ + u
            + "))"@),
        IntOp::GeS => ("i32::from("@ + a + " "@ + ">="@ + " "@ + b + ")"@),
        IntOp::GeU => ("i32::from(("@ + a + " as "@ + u + ") "@ + ">="@ + " ("@ + b + " as "@ + u
            + "))"@),
    }
}

proof fn lemma_text_plain(a: Seq<char>, b: Seq<char>, i: InfixV, m: MethodV)
    ensures
        method(m).text(a, b) == (a + "."@ + m.text() + "("@ + b + ")"@),
        infix(i).text(a, b) == (a + " "@ + i.text() + " "@ + b),
        ExprV::Paren(Box::new(infix(i))).text(a, b) == ("("@ + a + " "@ + i.text() + " "@ + b
            + ")"@),
        from_bool(infix(i)).text(a, b) == ("i32::from("@ + a + " "@ + i.text() + " "@ + b + ")"@),
{
    let e = infix(i);
    assert(first().text(a, b) == a && second().text(a, b) == b);
    assert(e.text(a, b) == a + " "@ + i.text() + " "@ + b);
    assert(ExprV::Paren(Box::new(e)).text(a, b) == "("@ + e.text(a, b) + ")"@);
    assert(ExprV::Paren(Box::new(e)).text(a, b) =~= ("("@ + a + " "@ + i.text() + " "@ + b + ")"@));
    assert(from_bool(e).text(a, b) == "i32::from("@ + e.text(a, b) + ")"@);
    assert(from_bool(e).text(a, b) =~= ("i32::from("@ + a + " "@ + i.text() + " "@ + b + ")"@));
}

proof fn lemma_text_shift(a: Seq<char>, b: Seq<char>, m: MethodV)
    ensures
        shift(m).text(a, b) == (a + "."@ + m.text() + "("@ + b + " as u32)"@),
{
    reveal_strlit(" as u32)");
    reveal_strlit(" as ");
    reveal_strlit("u32");
    reveal_strlit(")");
    let c = ExprV::Cast(second(), RustIntV::U32);
    assert(first().text(a, b) == a && second().text(a, b) == b);
    assert(c.text(a, b) == b + " as "@ + "u32"@);
    assert(shift(m).text(a, b) == a + "."@ + m.text() + "("@ + c.text(a, b) + ")"@);
    assert(shift(m).text(a, b) =~= (a + "."@ + m.text() + "("@ + b + " as u32)"@));
}

#[verifier::rlimit(40)]
proof fn lemma_text_count(a: Seq<char>, b: Seq<char>, ty: IntTy, m: MethodV)
    ensures
        count(m, ty).text(a, b) == ("("@ + a + "."@ + m.text() + "() as "@ + rust_int(ty).text()
            + ")"@),
{
    reveal_strlit("() as ");
    reveal_strlit(" as ");
    reveal_strlit("(");
    reveal_strlit(")");
    let t = rust_int(ty);
    let e = ExprV::Count(first(), m);
    let c = ExprV::Cast(Box::new(e), t);
    assert(first().text(a, b) == a);
    assert(e.text(a, b) == a + "."@ + m.text() + "("@ + ")"@);
    assert(c.text(a, b) == e.text(a, b) + " as "@ + t.text());
    assert(count(m, ty).text(a, b) == "("@ + c.text(a, b) + ")"@);
    assert(count(m, ty).text(a, b) =~= ("("@ + a + "."@ + m.text() + "() as "@ + t.text() + ")"@));
}

#[verifier::rlimit(40)]
proof fn lemma_brackets()
    ensures
        ") "@ == ")"@ + " "@,
        " ("@ == " "@ + "("@,
        "(("@ == "("@ + "("@,
        "))"@ == ")"@ + ")"@,
        ")) as "@ == ")"@ + ")"@ + " as "@,
        "i32::from(("@ == "i32::from("@ + "("@,
{
    reveal_strlit("(");
    reveal_strlit(")");
    reveal_strlit(") ");
    reveal_strlit(" (");
    reveal_strlit(" ");
    reveal_strlit("((");
    reveal_strlit("))");
    reveal_strlit(")) as ");
    reveal_strlit(" as ");
    reveal_strlit("i32::from((");
    reveal_strlit("i32::from(");
    assert(") "@ =~= ")"@ + " "@);
    assert(" ("@ =~= " "@ + "("@);
    assert("(("@ =~= "("@ + "("@);
    assert("))"@ =~= ")"@ + ")"@);
    assert(")) as "@ =~= ")"@ + ")"@ + " as "@);
    assert("i32::from(("@ =~= "i32::from("@ + "("@);
}

#[verifier::rlimit(40)]
proof fn lemma_text_unsigned_infix(a: Seq<char>, b: Seq<char>, ty: IntTy, i: InfixV)
    ensures
        unsigned_infix(i, ty).text(a, b)
            == ("("@ + a + " as "@ + unsigned_int(ty).text() + ") "@ + i.text() + " ("@ + b
                + " as "@ + unsigned_int(ty).text() + ")"@),
{
    broadcast use group_text;

    let u = unsigned_int(ty).text();
    let o = i.text();
    let (c, d) = (ExprV::Cast(first(), unsigned_int(ty)), ExprV::Cast(second(), unsigned_int(ty)));
    let e = unsigned_infix(i, ty);
    assert(first().text(a, b) == a && second().text(a, b) == b);
    assert(c.text(a, b) == a + " as "@ + u && d.text(a, b) == b + " as "@ + u);
    assert(paren(c).text(a, b) == "("@ + c.text(a, b) + ")"@);
    assert(paren(d).text(a, b) == "("@ + d.text(a, b) + ")"@);
    assert(e.text(a, b) == paren(c).text(a, b) + " "@ + o + " "@ + paren(d).text(a, b));
    lemma_brackets();
}

proof fn lemma_text_unsigned_bool(a: Seq<char>, b: Seq<char>, ty: IntTy, i: InfixV)
    ensures
        from_bool(unsigned_infix(i, ty)).text(a, b)
            == ("i32::from(("@ + a + " as "@ + unsigned_int(ty).text() + ") "@ + i.text() + " ("@
                + b + " as "@ + unsigned_int(ty).text() + "))"@),
{
    broadcast use group_text;

    lemma_brackets();
    let u = unsigned_int(ty).text();
    let o = i.text();
    let e = unsigned_infix(i, ty);
    lemma_text_unsigned_infix(a, b, ty, i);
    assert(from_bool(e).text(a, b) == "i32::from("@ + e.text(a, b) + ")"@);
}

proof fn lemma_text_unsigned_cast(a: Seq<char>, b: Seq<char>, ty: IntTy, i: InfixV)
    ensures
        ExprV::Cast(paren(unsigned_infix(i, ty)), rust_int(ty)).text(a, b)
            == ("(("@ + a + " as "@ + unsigned_int(ty).text() + ") "@ + i.text() + " ("@ + b
                + " as "@ + unsigned_int(ty).text() + ")) as "@ + rust_int(ty).text()),
{
    broadcast use group_text;

    lemma_brackets();
    let (u, t) = (unsigned_int(ty).text(), rust_int(ty).text());
    let o = i.text();
    let e = unsigned_infix(i, ty);
    lemma_text_unsigned_infix(a, b, ty, i);
    assert(paren(e).text(a, b) == "("@ + e.text(a, b) + ")"@);
    let f = ExprV::Cast(paren(e), rust_int(ty));
    assert(f.text(a, b) == paren(e).text(a, b) + " as "@ + t);
}

#[verifier::rlimit(40)]
proof fn lemma_text_unsigned_shift(a: Seq<char>, b: Seq<char>, ty: IntTy)
    ensures
        expr_of(ty, IntOp::ShrU).text(a, b) == integer_code(ty, IntOp::ShrU, a, b),
{
    reveal_strlit("(");
    reveal_strlit(")");
    reveal_strlit("((");
    reveal_strlit(" as ");
    reveal_strlit(" as u32) as ");
    reveal_strlit("u32");
    reveal_strlit(").");
    reveal_strlit(".");
    let (u, t) = (unsigned_int(ty), rust_int(ty));
    let (c, d) = (ExprV::Cast(first(), u), ExprV::Cast(second(), RustIntV::U32));
    assert(first().text(a, b) == a && second().text(a, b) == b);
    assert(c.text(a, b) == a + " as "@ + u.text() && d.text(a, b) == b + " as "@ + "u32"@);
    assert(paren(c).text(a, b) == "("@ + c.text(a, b) + ")"@);
    let e = ExprV::Method(paren(c), MethodV::WrappingShr, Box::new(d));
    assert(e.text(a, b) == paren(c).text(a, b) + "."@ + "wrapping_shr"@ + "("@ + d.text(a, b)
        + ")"@);
    let f = ExprV::Cast(Box::new(e), t);
    assert(f.text(a, b) == e.text(a, b) + " as "@ + t.text());
    assert(expr_of(ty, IntOp::ShrU).text(a, b) == "("@ + f.text(a, b) + ")"@);
    assert(expr_of(ty, IntOp::ShrU).text(a, b) =~= integer_code(ty, IntOp::ShrU, a, b));
}

proof fn lemma_text_eqz(a: Seq<char>, b: Seq<char>, ty: IntTy)
    ensures
        expr_of(ty, IntOp::Eqz).text(a, b) == integer_code(ty, IntOp::Eqz, a, b),
{
    reveal_strlit(" ");
    reveal_strlit(" == 0)");
    reveal_strlit("==");
    reveal_strlit("0");
    reveal_strlit(")");
    let e = ExprV::Infix(first(), InfixV::Eq, Box::new(ExprV::Zero));
    assert(first().text(a, b) == a && ExprV::Zero.text(a, b) == "0"@);
    assert(e.text(a, b) == a + " "@ + "=="@ + " "@ + "0"@);
    assert(expr_of(ty, IntOp::Eqz).text(a, b) =~= integer_code(ty, IntOp::Eqz, a, b));
}

proof fn lemma_text_division(a: Seq<char>, b: Seq<char>)
    ensures
        infix(InfixV::Div).text(a, b) == (a + " / "@ + b),
        method(MethodV::WrappingRem).text(a, b) == (a + ".wrapping_rem("@ + b + ")"@),
{
    lemma_text_plain(a, b, InfixV::Div, MethodV::WrappingRem);
    reveal_strlit(" / ");
    reveal_strlit("/");
    reveal_strlit(" ");
    reveal_strlit(".wrapping_rem(");
    reveal_strlit("wrapping_rem");
    reveal_strlit(".");
    reveal_strlit("(");
    assert(infix(InfixV::Div).text(a, b) =~= (a + " / "@ + b));
    assert(method(MethodV::WrappingRem).text(a, b) =~= (a + ".wrapping_rem("@ + b + ")"@));
}

#[verifier::rlimit(40)]
proof fn lemma_integer_text(ty: IntTy, op: IntOp, a: Seq<char>, b: Seq<char>)
    ensures
        expr_of(ty, op).text(a, b) == integer_code(ty, op, a, b),
{
    let i = match op {
        IntOp::DivU => InfixV::Div,
        IntOp::RemU => InfixV::Rem,
        IntOp::And => InfixV::And,
        IntOp::Or => InfixV::Or,
        IntOp::Xor => InfixV::Xor,
        IntOp::Ne => InfixV::Ne,
        IntOp::LtS | IntOp::LtU => InfixV::Lt,
        IntOp::GtS | IntOp::GtU => InfixV::Gt,
        IntOp::LeS | IntOp::LeU => InfixV::Le,
        IntOp::GeS | IntOp::GeU => InfixV::Ge,
        _ => InfixV::Eq,
    };
    let m = match op {
        IntOp::Clz => MethodV::LeadingZeros,
        IntOp::Ctz => MethodV::TrailingZeros,
        IntOp::Popcnt => MethodV::CountOnes,
        IntOp::Sub => MethodV::WrappingSub,
        IntOp::Mul => MethodV::WrappingMul,
        IntOp::Shl => MethodV::WrappingShl,
        IntOp::ShrS => MethodV::WrappingShr,
        IntOp::Rotl => MethodV::RotateLeft,
        IntOp::Rotr => MethodV::RotateRight,
        _ => MethodV::WrappingAdd,
    };
    match op {
        IntOp::Clz | IntOp::Ctz | IntOp::Popcnt => lemma_text_count(a, b, ty, m),
        IntOp::DivS | IntOp::RemS => lemma_text_division(a, b),
        IntOp::DivU | IntOp::RemU => lemma_text_unsigned_cast(a, b, ty, i),
        IntOp::LtU | IntOp::GtU | IntOp::LeU | IntOp::GeU => {
            lemma_text_unsigned_bool(a, b, ty, i)
        },
        IntOp::Shl | IntOp::ShrS | IntOp::Rotl | IntOp::Rotr => lemma_text_shift(a, b, m),
        IntOp::ShrU => lemma_text_unsigned_shift(a, b, ty),
        IntOp::Eqz => lemma_text_eqz(a, b, ty),
        _ => lemma_text_plain(a, b, i, m),
    }
}

pub proof fn lemma_materialized_yields(s: GenV, code: Seq<char>, ty: ValType)
    ensures
        s.materialized(code, ty) matches Ok(t) ==> yields(s, t, code),
{
    reveal(GenV::materialized);
    if let Ok(t) = s.materialized(code, ty) {
        assert(t.stack.drop_last() =~= s.stack);
        assert(t.cur.drop_last() =~= s.cur);
        let rty = s.rust_type(ty)->Ok_0;
        assert(t.cur.last() == NodeV::Line(
            "let "@ + t.stack.last().code + ": "@ + rty + " = "@ + code + ";"@,
        ));
    }
}

/// How many operands an integer operator takes.
pub open spec fn arity(op: IntOp) -> int {
    if takes_one(op) {
        1
    } else {
        2
    }
}

/// The operand that an integer operator takes first: the lower one of two.
pub open spec fn first_operand(s: GenV, op: IntOp) -> Seq<char> {
    s.stack[s.stack.len() - arity(op)].code
}

#[verifier::rlimit(40)]
proof fn lemma_integer_pushes(s: GenV, ty: IntTy, op: IntOp, t: GenV)
    requires
        s.integer(ty, op) == Ok::<GenV, FailV>(t),
        s.stack.len() >= arity(op),
        s.stack[s.stack.len() - arity(op)].ty == int_type(ty),
    ensures
        yields(
            s.drop(arity(op)),
            t,
            integer_code(ty, op, first_operand(s, op), s.stack.last().code),
        ),
{
    reveal(GenV::integer);
    let a = first_operand(s, op);
    let b = s.stack.last().code;
    let code = integer_code(ty, op, a, b);
    let d = s.drop(arity(op));
    let first = s.stack[s.stack.len() - arity(op)];
    let stable = if takes_one(op) {
        first.stable
    } else {
        first.stable && s.stack.last().stable
    };
    let out = if compares(op) {
        ValType::I32
    } else {
        int_type(ty)
    };
    law_expressions_are_pushed(d, code, out, stable);
    lemma_materialized_yields(d, code, out);
    if op is DivS || op is DivU || op is RemS || op is RemU {
        assert(d.materialized(code, out) == Ok::<GenV, FailV>(t));
    } else {
        assert(d.combined(code, out, stable) == Ok::<GenV, FailV>(t));
    }
}

/// An integer operator computes what WebAssembly says, of the topmost operands in
/// their order: the value that takes their place is that of a Rust expression over
/// them which gives the operator's result for all values of the operands, and panics
/// exactly where the operator traps.
pub proof fn law_integers_compute(s: GenV, ty: IntTy, op: IntOp, text: Seq<char>, t: GenV)
    requires
        s.reachable,
        s.emitted(Operator::Int { ty, op }, text) == Ok::<GenV, FailV>(t),
        s.stack.len() >= arity(op) ==> s.stack[s.stack.len() - arity(op)].ty == int_type(ty),
    ensures
        s.stack.len() >= arity(op),
        exists|e: ExprV| #[trigger]
            computes(e, ty, op) && yields(
                s.drop(arity(op)),
                t,
                e.text(first_operand(s, op), s.stack.last().code),
            ),
{
    lemma_unfold_integer(s, ty, op, text);
    lemma_integer_pushes(s, ty, op, t);
    lemma_integer_text(ty, op, first_operand(s, op), s.stack.last().code);
    lemma_computes(ty, op);
}

proof fn lemma_unfold_integer(s: GenV, ty: IntTy, op: IntOp, text: Seq<char>)
    requires
        s.reachable,
    ensures
        s.emitted(Operator::Int { ty, op }, text) == s.integer(ty, op),
        s.integer(ty, op) is Ok ==> s.stack.len() >= arity(op),
{
    reveal(GenV::lowered_numeric);
    reveal(GenV::integer);
}

// ---------------------------------------------------------------------------
// Conversions between integers
// ---------------------------------------------------------------------------
/// What a conversion between integers reads and gives, and what it computes of a number
/// taken as unsigned: the low bits, or those and their sign or zeros above.
pub struct IntConversionV {
    pub from: IntTy,
    pub to: IntTy,
    pub low: int,
    pub keeps_sign: bool,
}

pub open spec fn int_conversion(op: ConvertOp) -> Option<IntConversionV> {
    let (a, b) = (IntTy::I32, IntTy::I64);
    match op {
        ConvertOp::I32WrapI64 => Some(
            IntConversionV { from: b, to: a, low: 32, keeps_sign: false },
        ),
        ConvertOp::I64ExtendI32S => Some(
            IntConversionV { from: a, to: b, low: 32, keeps_sign: true },
        ),
        ConvertOp::I64ExtendI32U => Some(
            IntConversionV { from: a, to: b, low: 32, keeps_sign: false },
        ),
        ConvertOp::I32Extend8S => Some(
            IntConversionV { from: a, to: a, low: 8, keeps_sign: true },
        ),
        ConvertOp::I32Extend16S => Some(
            IntConversionV { from: a, to: a, low: 16, keeps_sign: true },
        ),
        ConvertOp::I64Extend8S => Some(
            IntConversionV { from: b, to: b, low: 8, keeps_sign: true },
        ),
        ConvertOp::I64Extend16S => Some(
            IntConversionV { from: b, to: b, low: 16, keeps_sign: true },
        ),
        ConvertOp::I64Extend32S => Some(
            IntConversionV { from: b, to: b, low: 32, keeps_sign: true },
        ),
        _ => None,
    }
}

pub open spec fn wasm_conversion(c: IntConversionV, a: int) -> int {
    let low = a % size_of_bits(c.low);
    if c.keeps_sign {
        signed(low, c.low) % rust_int(c.to).size()
    } else {
        low
    }
}

/// Whether the expression computes the conversion.
pub open spec fn converts(e: ExprV, c: IntConversionV) -> bool {
    let (t, to) = (rust_int(c.from), rust_int(c.to));
    forall|a: int|
        0 <= a < t.size() ==> #[trigger] e.value(t, signed(a, t.bits()), 0) == Some(
            (to, signed(wasm_conversion(c, a), to.bits())),
        )
}

spec fn conversion_expr(op: ConvertOp) -> ExprV {
    let cast = |t: RustIntV| ExprV::Cast(first(), t);
    let through = |u: RustIntV, t: RustIntV|
        ExprV::Paren(Box::new(ExprV::Cast(paren(ExprV::Cast(first(), u)), t)));
    match op {
        ConvertOp::I32WrapI64 => ExprV::Paren(Box::new(cast(RustIntV::I32))),
        ConvertOp::I64ExtendI32S => ExprV::Paren(Box::new(cast(RustIntV::I64))),
        ConvertOp::I64ExtendI32U => through(RustIntV::U32, RustIntV::I64),
        ConvertOp::I32Extend8S => through(RustIntV::I8, RustIntV::I32),
        ConvertOp::I32Extend16S => through(RustIntV::I16, RustIntV::I32),
        ConvertOp::I64Extend8S => through(RustIntV::I8, RustIntV::I64),
        ConvertOp::I64Extend16S => through(RustIntV::I16, RustIntV::I64),
        _ => through(RustIntV::I32, RustIntV::I64),
    }
}

/// The low bits of the signed reading are those of the unsigned one.
#[verifier::rlimit(40)]
proof fn lemma_low_bits(a: int, ty: IntTy, low: int)
    requires
        0 <= a < rust_int(ty).size(),
        low == 8 || low == 16 || low == 32 || low == rust_int(ty).bits(),
    ensures
        signed(a, rust_int(ty).bits()) % size_of_bits(low) == a % size_of_bits(low),
{
    let (bits, n) = (rust_int(ty).bits(), rust_int(ty).size());
    let m = size_of_bits(low);
    let x = signed(a, bits);
    let p = off(a, bits);
    let c: int = if ty is I32 {
        if low == 8 {
            0x100_0000
        } else if low == 16 {
            0x1_0000
        } else {
            1
        }
    } else if low == 8 {
        0x100_0000_0000_0000
    } else if low == 16 {
        0x1_0000_0000_0000
    } else if low == 32 {
        0x1_0000_0000
    } else {
        1
    };
    assert(n == m * c);
    lemma_same_residue(a, -c * p, m);
    assert(a + m * (-c * p) == x) by (nonlinear_arith)
        requires
            x == a - n * p,
            n == m * c,
    ;
}

#[verifier::rlimit(40)]
proof fn lemma_conversion_value(op: ConvertOp, c: IntConversionV, a: int)
    requires
        int_conversion(op) == Some(c),
        0 <= a < rust_int(c.from).size(),
    ensures
        conversion_expr(op).value(
            rust_int(c.from),
            signed(a, rust_int(c.from).bits()),
            0,
        ) == Some((rust_int(c.to), signed(wasm_conversion(c, a), rust_int(c.to).bits()))),
{
    let (t, to) = (rust_int(c.from), rust_int(c.to));
    let x = signed(a, t.bits());
    lemma_low_bits(a, c.from, c.low);
    lemma_signed(a, t.bits());
    lemma_operands(t, x, 0);
    let via = match op {
        ConvertOp::I32WrapI64 => RustIntV::I32,
        ConvertOp::I64ExtendI32S => RustIntV::I64,
        ConvertOp::I64ExtendI32U => RustIntV::U32,
        ConvertOp::I32Extend8S => RustIntV::I8,
        ConvertOp::I32Extend16S => RustIntV::I16,
        ConvertOp::I64Extend8S => RustIntV::I8,
        ConvertOp::I64Extend16S => RustIntV::I16,
        _ => RustIntV::I32,
    };
    let e = ExprV::Cast(first(), via);
    assert(e.value(t, x, 0) == Some((via, via.wrap(x))));
    assert(paren(e).value(t, x, 0) == e.value(t, x, 0));
    let f = ExprV::Cast(paren(e), to);
    assert(f.value(t, x, 0) == Some((to, to.wrap(via.wrap(x)))));
    assert(ExprV::Paren(Box::new(e)).value(t, x, 0) == e.value(t, x, 0));
    assert(ExprV::Paren(Box::new(f)).value(t, x, 0) == f.value(t, x, 0));
    if op is I64ExtendI32S {
        assert(a % size_of_bits(32) == a);
    }
}

#[verifier::rlimit(40)]
proof fn lemma_conversion_text(op: ConvertOp, a: Seq<char>)
    requires
        int_conversion(op) is Some,
    ensures
        convert_rule(op) matches ConvertRule::Pure { ty, wrap } && conversion_expr(op).text(a, a)
            == wrapped(wrap, a),
{
    reveal_strlit("(");
    reveal_strlit(")");
    reveal_strlit("((");
    reveal_strlit(") as ");
    reveal_strlit(" as ");
    let via = match op {
        ConvertOp::I32WrapI64 => RustIntV::I32,
        ConvertOp::I64ExtendI32S => RustIntV::I64,
        ConvertOp::I64ExtendI32U => RustIntV::U32,
        ConvertOp::I32Extend8S => RustIntV::I8,
        ConvertOp::I32Extend16S => RustIntV::I16,
        ConvertOp::I64Extend8S => RustIntV::I8,
        ConvertOp::I64Extend16S => RustIntV::I16,
        _ => RustIntV::I32,
    };
    let to = rust_int((int_conversion(op)->0).to);
    let e = ExprV::Cast(first(), via);
    assert(first().text(a, a) == a);
    assert(e.text(a, a) == a + " as "@ + via.text());
    assert(paren(e).text(a, a) == "("@ + e.text(a, a) + ")"@);
    assert(ExprV::Paren(Box::new(e)).text(a, a) == "("@ + e.text(a, a) + ")"@);
    let f = ExprV::Cast(paren(e), to);
    assert(f.text(a, a) == paren(e).text(a, a) + " as "@ + to.text());
    assert(ExprV::Paren(Box::new(f)).text(a, a) == "("@ + f.text(a, a) + ")"@);
    assert(conversion_expr(op).text(a, a) =~= wrapped(convert_rule(op)->wrap, a));
}

proof fn lemma_unfold_conversion(s: GenV, op: ConvertOp, text: Seq<char>)
    requires
        s.reachable,
    ensures
        s.emitted(Operator::Convert { op }, text) == s.converted(op),
{
    reveal(GenV::lowered_numeric);
}

/// A conversion between integers computes what WebAssembly says of the top operand: it
/// keeps the low bits, and puts their sign or zeros above them.
#[verifier::rlimit(40)]
pub proof fn law_integer_conversions_compute(
    s: GenV,
    op: ConvertOp,
    c: IntConversionV,
    text: Seq<char>,
    t: GenV,
)
    requires
        s.reachable,
        int_conversion(op) == Some(c),
        s.emitted(Operator::Convert { op }, text) == Ok::<GenV, FailV>(t),
    ensures
        s.stack.len() > 0,
        t.stack.len() > 0 && t.stack.last().ty == int_type(c.to),
        exists|e: ExprV| #[trigger]
            converts(e, c) && yields(
                s.drop(1),
                t,
                e.text(s.stack.last().code, s.stack.last().code),
            ),
{
    lemma_unfold_conversion(s, op, text);
    reveal(GenV::converted);
    reveal(GenV::combined);
    reveal(GenV::materialized);
    let a = s.stack.last().code;
    lemma_conversion_text(op, a);
    let e = conversion_expr(op);
    let (from, to) = (rust_int(c.from), rust_int(c.to));
    assert forall|x: int| 0 <= x < from.size() implies #[trigger] e.value(
        from,
        signed(x, from.bits()),
        0,
    ) == Some((to, signed(wasm_conversion(c, x), to.bits()))) by {
        lemma_conversion_value(op, c, x);
    }
    assert(converts(e, c));
    let code = wrapped(convert_rule(op)->wrap, a);
    law_expressions_are_pushed(s.drop(1), code, int_type(c.to), s.top().stable);
}

// ---------------------------------------------------------------------------
// Atomic updates
// ---------------------------------------------------------------------------
/// The operator by which an atomic update makes the new value of the old one and its
/// operand; none for an exchange.
pub open spec fn update_op(op: RmwOp) -> Option<IntOp> {
    match op {
        RmwOp::Add => Some(IntOp::Add),
        RmwOp::Sub => Some(IntOp::Sub),
        RmwOp::And => Some(IntOp::And),
        RmwOp::Or => Some(IntOp::Or),
        RmwOp::Xor => Some(IntOp::Xor),
        RmwOp::Xchg => None,
    }
}

/// The new value of an atomic update is what the operator gives of the old one and the
/// operand, in this order; an exchange puts the operand in.
#[verifier::rlimit(40)]
pub proof fn law_atomic_updates_compute(
    op: RmwOp,
    ty: IntTy,
    prev: Seq<char>,
    value: Seq<char>,
)
    ensures
        match update_op(op) {
            Some(op1) => exists|e: ExprV| #[trigger]
                computes(e, ty, op1) && rmw_text(op, prev, value) == e.text(prev, value),
            None => rmw_text(op, prev, value) == value,
        },
{
    if let Some(op1) = update_op(op) {
        lemma_computes(ty, op1);
        lemma_integer_text(ty, op1, prev, value);
        reveal_strlit(".wrapping_add(");
        reveal_strlit("wrapping_add");
        reveal_strlit(".wrapping_sub(");
        reveal_strlit("wrapping_sub");
        reveal_strlit(".");
        reveal_strlit("(");
        reveal_strlit(" & ");
        reveal_strlit("&");
        reveal_strlit(" | ");
        reveal_strlit("|");
        reveal_strlit(" ^ ");
        reveal_strlit("^");
        reveal_strlit(" ");
        assert(rmw_text(op, prev, value) =~= integer_code(ty, op1, prev, value));
    }
}

} // verus!

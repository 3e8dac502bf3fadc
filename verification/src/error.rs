//! What can go wrong in a translation.

use vstd::prelude::*;

use crate::text::lit;

verus! {

/// Why a module was not translated.
pub enum TranspileError {
    /// The module uses something that has no translation.
    Unsupported(String),
    /// An operator needs more operands than the stack holds.
    StackUnderflow,
    /// The module's bytes are malformed.
    Malformed,
}

/// The model of a [`TranspileError`].
pub enum FailV {
    Unsupported(Seq<char>),
    StackUnderflow,
    Malformed,
}

impl View for TranspileError {
    type V = FailV;

    open spec fn view(&self) -> FailV {
        match self {
            TranspileError::Unsupported(s) => FailV::Unsupported(s@),
            TranspileError::StackUnderflow => FailV::StackUnderflow,
            TranspileError::Malformed => FailV::Malformed,
        }
    }
}

/// The failure for something unsupported.
pub open spec fn unsupported(what: Seq<char>) -> FailV {
    FailV::Unsupported(what)
}

/// The error for something unsupported.
pub fn no_support(what: &str) -> (r: TranspileError)
    ensures
        r@ == unsupported(what@),
{
    TranspileError::Unsupported(lit(what))
}

/// Whether a text result is as specified.
pub open spec fn text_result(
    r: Result<String, TranspileError>,
    want: Result<Seq<char>, FailV>,
) -> bool {
    match want {
        Ok(t) => r is Ok && r->Ok_0@ == t,
        Err(e) => r is Err && r->Err_0@ == e,
    }
}

/// Whether a result is as specified.
pub open spec fn same_result<T>(r: Result<T, TranspileError>, want: Result<T, FailV>) -> bool {
    match want {
        Ok(t) => r is Ok && r->Ok_0 == t,
        Err(e) => r is Err && r->Err_0@ == e,
    }
}

} // verus!

//! The generator of one function: its state, and the lowering of each instruction.
//!
//! Every method of [`FuncGen`](state::FuncGen) has a counterpart on its model
//! [`GenV`](state::GenV), which says what the method does to the operand stack, the
//! open regions and the body under construction.

pub mod access_laws;
pub mod body;
pub mod branch;
pub mod branch_laws;
pub mod calls;
pub mod cell_laws;
pub mod cont;
pub mod control;
pub mod exceptions;
pub mod float_laws;
pub mod gc;
pub mod integer_laws;
pub mod keeps;
pub mod lowering;
pub mod memvals;
pub mod numeric;
pub mod op;
pub mod place_laws;
pub mod region_laws;
pub mod resume;
pub mod resume_laws;
pub mod simd;
pub mod state;
pub mod step;
pub mod table;
pub mod value_laws;

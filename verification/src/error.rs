//! The ways in which a proving or a checking run can fail.

use vstd::prelude::*;

verus! {

/// Why a run could not go on.
#[derive(Clone, Copy, Debug, PartialEq, Eq, Structural)]
pub enum Error {
    /// The configuration handed in is malformed or inconsistent.
    Config,
    /// A seed's tag does not match, or is not hexadecimal text.
    Authentication,
    /// The proving primitive failed, or did not confirm a proof it had just
    /// produced.
    Primitive,
    /// The text of an artifact is malformed or incomplete.
    Serialization,
}

} // verus!

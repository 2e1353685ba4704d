//! What can go wrong when attributes of entities are pulled.

use vstd::prelude::*;
use crate::text::{int_decimal, push_i64};
use crate::values::Entid;

verus! {

/// Why a pull was refused.
#[derive(Debug, PartialEq, Eq)]
pub enum PullError {
    /// The attribute with this entid has no name in the schema.
    UnnamedAttribute(Entid),
    /// The entity's own id was asked for more than once.
    RepeatedDbId,
}

/// The message of a pull error.
pub open spec fn pull_error_text(e: PullError) -> Seq<char> {
    match e {
        PullError::UnnamedAttribute(a) => "attribute "@ + int_decimal(a as int) + " has no name"@,
        PullError::RepeatedDbId => ":db/id repeated"@,
    }
}

impl PullError {
    /// The message of the error.
    pub fn to_string(&self) -> (r: String)
        ensures
            r@ == pull_error_text(*self),
    {
        let mut out = String::new();
        match self {
            PullError::UnnamedAttribute(a) => {
                out.push_str("attribute ");
                push_i64(&mut out, *a);
                out.push_str(" has no name");
            },
            PullError::RepeatedDbId => {
                out.push_str(":db/id repeated");
            },
        }
        assert(out@ =~= pull_error_text(*self));
        out
    }
}

} // verus!

//! The structured error records the registry boundary reports:
//! machine-readable code, message and detail, singly or in batches.

use vstd::prelude::*;

verus! {

/// One reported error: code, message and detail.
pub struct RegistryJsonErrorRepr {
    pub code: String,
    pub message: String,
    pub detail: String,
}

impl RegistryJsonErrorRepr {
    pub fn new(code: &str, message: &str, detail: &str) -> (r: Self)
        ensures
            r.code@ == code@,
            r.message@ == message@,
            r.detail@ == detail@,
    {
        RegistryJsonErrorRepr {
            code: code.to_owned(),
            message: message.to_owned(),
            detail: detail.to_owned(),
        }
    }
}

/// The envelope the boundary reports errors in.
pub struct RegistryJsonErrorReprWrapper {
    pub errors: Vec<RegistryJsonErrorRepr>,
}

impl RegistryJsonErrorReprWrapper {
    /// An envelope holding one error.
    pub fn single(code: &str, message: &str, detail: &str) -> (r: Self)
        ensures
            r.errors@.len() == 1,
            r.errors@[0].code@ == code@,
            r.errors@[0].message@ == message@,
            r.errors@[0].detail@ == detail@,
    {
        let inner = RegistryJsonErrorRepr::new(code, message, detail);
        let mut errors: Vec<RegistryJsonErrorRepr> = Vec::new();
        errors.push(inner);
        RegistryJsonErrorReprWrapper { errors }
    }

    /// An envelope holding the given errors.
    pub fn multiple(errors: Vec<RegistryJsonErrorRepr>) -> (r: Self)
        ensures
            r.errors@ == errors@,
    {
        RegistryJsonErrorReprWrapper { errors }
    }
}

} // verus!

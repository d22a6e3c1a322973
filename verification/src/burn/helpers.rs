use vstd::prelude::*;

verus! {

/// The address of a deployed burn contract.
#[derive(Debug, PartialEq, Eq)]
pub struct CwTemplateContract(pub String);

impl Clone for CwTemplateContract {
    fn clone(&self) -> (r: Self)
        ensures
            r == *self,
    {
        CwTemplateContract(self.0.clone())
    }
}

} // verus!

use std::hash::{Hash, Hasher};
use std::sync::Arc;
use vstd::prelude::*;

verus! {

/// A handle on one stored value: the id its table issued, and the value
/// itself behind a shared pointer. Handles compare and hash by id alone.
#[derive(Debug)]
pub struct Record<T> {
    pub id: usize,
    pub data: Arc<T>,
}

impl<T> Clone for Record<T> {
    /// Copies the handle; the payload is shared, not copied.
    fn clone(&self) -> (r: Self)
        ensures
            r == *self,
    {
        Record { id: self.id, data: Arc::clone(&self.data) }
    }
}

impl<T> PartialEq for Record<T> {
    fn eq(&self, other: &Record<T>) -> (r: bool) {
        self.id == other.id
    }
}

impl<T> vstd::std_specs::cmp::PartialEqSpecImpl for Record<T> {
    open spec fn obeys_eq_spec() -> bool {
        true
    }

    open spec fn eq_spec(&self, other: &Record<T>) -> bool {
        self.id == other.id
    }
}

impl<T> Eq for Record<T> {

}

impl<T> Hash for Record<T> {
    /// Relies on usize's `Hash::hash`: a record feeds the hasher its id and
    /// nothing else, so that equal handles hash alike.
    #[verifier::external_body]
    fn hash<H: Hasher>(&self, state: &mut H) {
        self.id.hash(state);
    }
}

} // verus!

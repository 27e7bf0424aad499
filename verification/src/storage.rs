use vstd::prelude::*;

use crate::element::Element;
use crate::value::Value;
use crate::variables::{variables_wf, Variables};

verus! {

/// The arena of elements together with the variable table: everything one
/// compiled expression owns besides its source text.
#[derive(Debug, Clone)]
pub struct ExpressionStorage<T> {
    pub elements: Vec<Element<T>>,
    pub variables: Variables,
}

impl<T> ExpressionStorage<T> {
    /// Empty storage.
    pub fn new() -> (r: ExpressionStorage<T>)
        ensures
            r.elements@ == Seq::<Element<T>>::empty(),
            r.variables.names@ == Seq::<String>::empty(),
            r.variables.values@ == Seq::<Value>::empty(),
            variables_wf(r.variables),
    {
        ExpressionStorage { elements: Vec::new(), variables: Variables::new() }
    }

    /// Drop every element and every variable.
    pub fn clear(&mut self)
        ensures
            final(self).elements@ == Seq::<Element<T>>::empty(),
            final(self).variables.names@ == Seq::<String>::empty(),
            final(self).variables.values@ == Seq::<Value>::empty(),
            variables_wf(final(self).variables),
    {
        self.elements.clear();
        self.variables.clear();
    }
}

} // verus!

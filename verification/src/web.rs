//! The built-in front page, drawn from the template settings.
use vstd::prelude::*;
use crate::config::ConfigTemplate;

verus! {

/// The front page, made from the template settings.
pub struct IndexTemplate<'a> {
    root: &'a ConfigTemplate,
}

impl<'a> IndexTemplate<'a> {
    /// The settings the page is drawn from.
    pub closed spec fn settings(&self) -> ConfigTemplate {
        *self.root
    }

    /// The front page drawn from `value`.
    pub fn from(value: &'a ConfigTemplate) -> (t: IndexTemplate<'a>)
        ensures
            t.settings() == *value,
    {
        IndexTemplate { root: value }
    }

    /// The settings the page is drawn from.
    pub fn root(&self) -> (r: &'a ConfigTemplate)
        ensures
            *r == self.settings(),
    {
        self.root
    }
}

} // verus!

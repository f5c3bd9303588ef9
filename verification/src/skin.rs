//! What a render request asks for.

use vstd::prelude::*;

verus! {

/// A render request: the skin and the two optional tints. Two requests that
/// differ in anything are different requests.
#[derive(Debug, PartialEq, Eq, Hash)]
pub struct SkinQuery {
    /// Name of the skin.
    pub name: String,
    /// Tint of the body and its shadow.
    pub body: Option<u32>,
    /// Tint of the feet and their shadow.
    pub feet: Option<u32>,
}

/// The mathematical value of a `SkinQuery`.
pub struct SkinQueryView {
    pub name: Seq<char>,
    pub body: Option<u32>,
    pub feet: Option<u32>,
}

impl View for SkinQuery {
    type V = SkinQueryView;

    open spec fn view(&self) -> SkinQueryView {
        SkinQueryView { name: self.name@, body: self.body, feet: self.feet }
    }
}

impl Clone for SkinQuery {
    fn clone(&self) -> (r: Self)
        ensures
            r@ == self@,
    {
        SkinQuery { name: self.name.clone(), body: self.body, feet: self.feet }
    }
}

/// The values of a list of requests, in order.
pub open spec fn query_views(queries: Seq<SkinQuery>) -> Seq<SkinQueryView> {
    queries.map_values(|q: SkinQuery| q@)
}

} // verus!

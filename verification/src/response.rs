//! What a successful operation reports.

use vstd::prelude::*;
use vstd::string::StringExecFns;

verus! {

/// One key with its value.
#[derive(Debug, PartialEq, Eq)]
pub struct Attribute {
    pub key: String,
    pub value: String,
}

/// The report of a successful operation: its attributes in the order in which
/// they were added.
#[derive(Debug, PartialEq, Eq)]
pub struct Response {
    pub attributes: Vec<Attribute>,
}

/// The mathematical value of a response: its keys and values.
pub type ResponseView = Seq<(Seq<char>, Seq<char>)>;

impl View for Response {
    type V = ResponseView;

    open spec fn view(&self) -> ResponseView {
        Seq::new(
            self.attributes@.len(),
            |i: int| (self.attributes@[i].key@, self.attributes@[i].value@),
        )
    }
}

impl Response {
    /// A response without attributes.
    pub fn new() -> (r: Response)
        ensures
            r@ == Seq::<(Seq<char>, Seq<char>)>::empty(),
    {
        let r = Response { attributes: Vec::new() };
        assert(r@ =~= Seq::<(Seq<char>, Seq<char>)>::empty());
        r
    }

    /// This response with one more attribute at its end.
    pub fn add_attribute(self, key: &str, value: &str) -> (r: Response)
        ensures
            r@ == self@.push((key@, value@)),
    {
        let mut attributes = self.attributes;
        attributes.push(Attribute { key: String::from_str(key), value: String::from_str(value) });
        let r = Response { attributes };
        assert(r@ =~= self@.push((key@, value@)));
        r
    }
}

} // verus!

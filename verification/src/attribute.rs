//! Formatting attributes: a key with a value, or a key marked for removal.

use vstd::prelude::*;

verus! {

/// A single formatting key with its value. `value == None` is the explicit
/// marker that removes the key.
#[derive(Debug, PartialEq, Eq)]
pub struct Attribute {
    pub key: String,
    pub value: Option<String>,
}

/// Mathematical content of an [`Attribute`].
pub struct AttributeModel {
    pub key: Seq<char>,
    pub value: Option<Seq<char>>,
}

impl View for Attribute {
    type V = AttributeModel;

    open spec fn view(&self) -> AttributeModel {
        AttributeModel {
            key: self.key@,
            value: match self.value {
                Some(v) => Some(v@),
                None => None,
            },
        }
    }
}

/// The models of a sequence of attributes, position by position.
pub open spec fn attributes_view(attributes: Seq<Attribute>) -> Seq<AttributeModel> {
    Seq::new(attributes.len(), |i: int| attributes[i]@)
}

impl Attribute {
    /// An attribute that sets `key` to `value`.
    pub fn new(key: &str, value: &str) -> (r: Attribute)
        ensures
            r@ == (AttributeModel { key: key@, value: Some(value@) }),
    {
        Attribute { key: key.to_owned(), value: Some(value.to_owned()) }
    }

    /// An attribute that removes `key`.
    pub fn remove(key: &str) -> (r: Attribute)
        ensures
            r@ == (AttributeModel { key: key@, value: None }),
    {
        Attribute { key: key.to_owned(), value: None }
    }

    /// Whether this attribute removes its key.
    pub fn is_remove(&self) -> (r: bool)
        ensures
            r == (self@.value is None),
    {
        self.value.is_none()
    }
}

impl Clone for Attribute {
    fn clone(&self) -> (r: Attribute)
        ensures
            r@ == self@,
    {
        let value = match &self.value {
            Some(v) => Some(v.clone()),
            None => None,
        };
        Attribute { key: self.key.clone(), value }
    }
}

/// Copies a list of attributes.
pub fn clone_attributes(attributes: &Vec<Attribute>) -> (r: Vec<Attribute>)
    ensures
        attributes_view(r@) == attributes_view(attributes@),
{
    let mut out: Vec<Attribute> = Vec::new();
    let mut i: usize = 0;
    while i < attributes.len()
        invariant
            i <= attributes.len(),
            out.len() == i,
            forall|j: int| 0 <= j < i ==> out[j]@ == attributes[j]@,
        decreases attributes.len() - i,
    {
        out.push(attributes[i].clone());
        i += 1;
    }
    assert(attributes_view(out@) =~= attributes_view(attributes@));
    out
}

} // verus!

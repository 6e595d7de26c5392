//! Requests that add or remove an attribute of an entity type in the
//! schema document.

use vstd::prelude::*;

verus! {

/// An attribute to add to the `User` or `Table` entity type.
pub struct AttributeSchema {
    pub name: String,
    pub attr_type: String,
    pub required: bool,
}

impl AttributeSchema {
    /// The attribute's name.
    pub fn get_name(&self) -> (r: &String)
        ensures
            r@ == self.name@,
    {
        &self.name
    }

    /// The attribute's Cedar type.
    pub fn get_type(&self) -> (r: &String)
        ensures
            r@ == self.attr_type@,
    {
        &self.attr_type
    }

    /// Whether entities must carry the attribute.
    pub fn is_required(&self) -> (r: bool)
        ensures
            r == self.required,
    {
        self.required
    }
}

/// An attribute to add to any entity type of any namespace.
pub struct GenericAttributeSchema {
    /// The namespace; none stands for the empty namespace.
    pub namespace: Option<String>,
    pub entity_type: String,
    pub name: String,
    pub attr_type: String,
    pub required: bool,
}

/// An attribute to remove from an entity type of a namespace.
pub struct DeleteAttributeSchema {
    /// The namespace; none stands for the empty namespace.
    pub namespace: Option<String>,
    pub entity_type: String,
    pub name: String,
}

} // verus!

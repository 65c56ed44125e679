//! Which name an attribute on an item stands for.

use vstd::prelude::*;

verus! {

/// Where the name comes from.
#[derive(Clone, Copy, Debug, PartialEq, Eq, Structural)]
pub enum NameSource {
    /// The name of the item that the attribute stands on.
    Item,
    /// The argument of the attribute, which must be one identifier.
    Attribute,
}

/// Where the name comes from, given whether the item is one that has a
/// name to offer (a module or a function) and whether the attribute has no
/// argument: from the item where both hold, from the attribute's argument
/// in every other case.
pub open spec fn source_of_name(item_has_name: bool, attr_is_empty: bool) -> NameSource {
    if item_has_name && attr_is_empty {
        NameSource::Item
    } else {
        NameSource::Attribute
    }
}

/// Decides [`source_of_name`].
pub fn name_source(item_has_name: bool, attr_is_empty: bool) -> (source: NameSource)
    ensures
        source == source_of_name(item_has_name, attr_is_empty),
{
    if item_has_name && attr_is_empty {
        NameSource::Item
    } else {
        NameSource::Attribute
    }
}

} // verus!

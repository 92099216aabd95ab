//! Identifiers and descriptions of the items of a configuration.
use vstd::prelude::*;

verus! {

/// The identifier reserved for the all-stop broadcast.
pub const ALL_STOP_ID: u32 = 0;

/// A unique identifier of an item (an event, a status, a scene or a label).
#[derive(Clone, Copy, Debug, PartialEq, Eq, Hash, Structural)]
pub struct ItemId {
    pub id: u32,
}

impl ItemId {
    pub fn new(id: u32) -> (r: ItemId)
        ensures
            r.id == id,
    {
        ItemId { id }
    }

    /// The identifier that an all-stop broadcasts.
    pub fn all_stop() -> (r: ItemId)
        ensures
            r.id == ALL_STOP_ID,
    {
        ItemId { id: ALL_STOP_ID }
    }

    pub fn id(&self) -> (r: u32)
        ensures
            r == self.id,
    {
        self.id
    }
}

/// How an item is surfaced to the user interface.
#[derive(Clone, Copy, Debug, PartialEq, Eq, Hash, Structural)]
pub enum DisplayType {
    /// Shown in the general control group.
    DisplayControl,
    /// Shown in the group of the given item.
    DisplayWith { group_id: ItemId },
    /// Shown only in debug mode, in the given group or in the general group.
    DisplayDebug { group: Option<ItemId> },
    /// Shown as a status label.
    LabelControl,
    /// A label that is not shown.
    LabelHidden,
    /// Not shown at all.
    Hidden,
}

/// The text and display classification of an item.
#[derive(Clone, Debug, PartialEq, Eq)]
pub struct ItemDescription {
    pub description: String,
    pub display: DisplayType,
}

impl ItemDescription {
    pub fn new(description: String, display: DisplayType) -> (r: ItemDescription)
        ensures
            r.description@ == description@,
            r.display == display,
    {
        ItemDescription { description, display }
    }

    /// The description of an item that the registry does not hold.
    pub fn unknown() -> (r: ItemDescription)
        ensures
            r.description@ == unknown_text(),
            r.display == DisplayType::Hidden,
    {
        proof {
            reveal_strlit("No Description.");
        }
        ItemDescription { description: String::from_str("No Description."), display: DisplayType::Hidden }
    }

    pub fn duplicate(&self) -> (r: ItemDescription)
        ensures
            r == *self,
    {
        ItemDescription { description: self.description.clone(), display: self.display }
    }
}

/// The text given to an item that has no description.
pub open spec fn unknown_text() -> Seq<char> {
    seq!['N', 'o', ' ', 'D', 'e', 's', 'c', 'r', 'i', 'p', 't', 'i', 'o', 'n', '.']
}

/// An item identifier together with its description.
#[derive(Clone, Debug, PartialEq, Eq)]
pub struct ItemPair {
    pub id: ItemId,
    pub description: String,
    pub display: DisplayType,
}

/// A pair as the contracts see it: identifier, text and display.
pub type PairView = (ItemId, Seq<char>, DisplayType);

impl View for ItemPair {
    type V = PairView;

    open spec fn view(&self) -> PairView {
        (self.id, self.description@, self.display)
    }
}

impl ItemPair {
    /// Whether the two pairs hold the same identifier, text and display.
    pub fn same_pair(&self, other: &ItemPair) -> (r: bool)
        ensures
            r == (self@ == other@),
    {
        self.id == other.id && self.display == other.display && self.description == other.description
    }

    pub fn new(id: ItemId, description: String, display: DisplayType) -> (r: ItemPair)
        ensures
            r.id == id,
            r.description@ == description@,
            r.display == display,
    {
        ItemPair { id, description, display }
    }

    /// Joins an identifier and its description.
    pub fn from_item(id: ItemId, description: ItemDescription) -> (r: ItemPair)
        ensures
            r.id == id,
            r.description == description.description,
            r.display == description.display,
    {
        ItemPair { id, description: description.description, display: description.display }
    }

    /// The pair that an all-stop broadcasts.
    pub fn all_stop() -> (r: ItemPair)
        ensures
            r.id.id == ALL_STOP_ID,
            r.description@ == "All Stop"@,
            r.display == DisplayType::Hidden,
    {
        proof {
            reveal_strlit("All Stop");
        }
        ItemPair { id: ItemId::all_stop(), description: String::from_str("All Stop"), display: DisplayType::Hidden }
    }

    /// The description half of the pair.
    pub fn get_description(&self) -> (r: ItemDescription)
        ensures
            r.description == self.description,
            r.display == self.display,
    {
        ItemDescription { description: self.description.clone(), display: self.display }
    }

    pub fn duplicate(&self) -> (r: ItemPair)
        ensures
            r == *self,
    {
        ItemPair { id: self.id, description: self.description.clone(), display: self.display }
    }
}

} // verus!

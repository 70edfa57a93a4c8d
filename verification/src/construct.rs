//! Part slots and slot matching, and part action payloads.
//!
//! A construct carries part slots; a part carries compatibility tags and can
//! be installed on a slot whose type matches one of them.

use vstd::prelude::*;

verus! {

/// An entity which can serve as a part slot.
#[derive(Clone, PartialEq, Eq, Debug)]
pub struct PartSlotInfo {
    /// The type of parts compatible with this slot.
    ///
    /// Multiple compatibility types cannot be specified for a single slot;
    /// a part, however, may specify multiple compatibility tags, so slots of
    /// different types can be compatible with the same tag.
    pub slot_type: String,
}

/// A part which can be installed on a construct via one of its slots.
#[derive(Clone, PartialEq, Eq, Debug)]
pub struct PartInfo {
    /// Which slot types are compatible with this part.
    pub tags: Vec<String>,
}

/// Make a part slot component.
pub fn part_slot(slot_type: String) -> (r: PartSlotInfo)
    ensures
        r.slot_type@ == slot_type@,
{
    PartSlotInfo { slot_type }
}

/// Make a part info component.
pub fn part_tags(tags: Vec<String>) -> (r: PartInfo)
    ensures
        r.tags@ == tags@,
{
    PartInfo { tags }
}

/// Make a part info component with a single tag.
pub fn part_tag(tag: String) -> (r: PartInfo)
    ensures
        r.tags@.len() == 1,
        r.tags@[0]@ == tag@,
{
    let mut tags: Vec<String> = Vec::new();
    tags.push(tag);
    PartInfo { tags }
}

/// A part matches a slot when one of its tags equals the slot's type.
pub open spec fn part_matches_slot(part: PartInfo, slot: PartSlotInfo) -> bool {
    exists|i: int| 0 <= i < part.tags@.len() && (#[trigger] part.tags@[i])@ == slot.slot_type@
}

impl PartInfo {
    /// Whether this part can be installed on the given slot: some tag of the
    /// part names the slot's type.
    pub fn matches_slot(&self, slot: &PartSlotInfo) -> (r: bool)
        ensures
            r == part_matches_slot(*self, *slot),
    {
        let n = self.tags.len();
        let mut i: usize = 0;
        while i < n
            invariant
                i <= n,
                n == self.tags@.len(),
                forall|j: int| 0 <= j < i ==> (#[trigger] self.tags@[j])@ != slot.slot_type@,
            decreases n - i,
        {
            let t: &String = &self.tags[i];
            if t.eq(&slot.slot_type) {
                return true;
            }
            i += 1;
        }
        false
    }
}

/// A debugging part action payload: prints an optional extra message when a
/// part receives it.
#[derive(Clone, PartialEq, Eq, Debug)]
pub struct DebugPrintPart {
    /// The extra message to print, if any.
    pub extra_message: Option<String>,
}

impl DebugPrintPart {
    /// A debug payload with an extra message attached.
    pub fn with_message(message: &str) -> (r: DebugPrintPart)
        ensures
            r.extra_message is Some,
            r.extra_message->0@ == message@,
    {
        DebugPrintPart { extra_message: Some(message.to_owned()) }
    }
}

} // verus!

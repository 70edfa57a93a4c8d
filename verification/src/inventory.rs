//! Inventory definitions: the domain data records the surrounding game
//! attaches to items, parts and stock. These are plain values the simulation
//! core carries but does not compute with.

use vstd::prelude::*;

verus! {

/// An engine part definition.
#[derive(Clone, Copy, PartialEq, Eq, Structural, Debug)]
pub struct EngineDef {
    /// The type of fuel used by this engine. `None` means a manual engine.
    pub fuel_type: Option<FuelType>,

    /// The engine power in Newtons per second.
    pub power: u32,

    /// The fuel consumption per second in thousandths of item units.
    pub fuel_consumption: u16,
}

/// An armor part definition.
#[derive(Clone, Copy, PartialEq, Eq, Structural, Debug)]
pub struct ArmorDef {
    pub defense_factor: u8,
    pub wear_factor: u8,
    pub deflect_factor: u8,
    pub overwhelm_factor: u8,
}

/// How a part must be manned to operate.
#[derive(Clone, Copy, PartialEq, Eq, Structural, Debug)]
pub enum ManningType {
    /// Operates on its own.
    Unmanned,

    /// Operates when anybody mans it.
    AnyManned,

    /// Operates when manned with at least this much strength.
    StrengthManned(u8),
}

/// A food item definition.
#[derive(Clone, Copy, PartialEq, Eq, Structural, Debug)]
pub struct FoodDef {
    /// How filling the food is.
    pub food_points: u8,
}

/// A kind of engine fuel.
#[derive(Clone, Copy, PartialEq, Eq, Structural, Debug)]
pub enum FuelType {
    Coal,
    Diesel,
}

/// A fuel item definition.
#[derive(Clone, Copy, PartialEq, Eq, Structural, Debug)]
pub struct FuelDef {
    /// Which kind of fuel this is.
    pub fuel_type: FuelType,
}

/// A cannonball item definition.
#[derive(Clone, Copy, PartialEq, Eq, Structural, Debug)]
pub struct CannonballDef {
    /// Cannonball caliber, in tenths of millimeters.
    pub caliber: u8,
}

/// One stack of items in an inventory.
#[derive(Clone, PartialEq, Eq, Debug)]
pub struct InventoryItem {
    /// The key of this item's display name in the translation tables.
    pub translation_key: String,

    /// The kind of item, e.g. "part" or "food".
    pub item_type: String,

    /// How many items the stack holds.
    pub amount: u64,

    /// The unique key of this item definition.
    pub key: String,

    /// Whether stacks of this item merge automatically.
    pub auto_consolidate: bool,

    /// The base cost rate of the item.
    pub base_cost_rate: u32,
}

} // verus!

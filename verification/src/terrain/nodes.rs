//! Basic integer terrain definitions: a terrain is a tree of height nodes,
//! each producing raw `u16` height samples on a whole-number grid.

use vstd::prelude::*;

verus! {

/// A terrain node: produces a raw height sample for a grid coordinate.
pub trait TerrainNode {
    /// The height this node produces.
    spec fn spec_height(&self, x: int, y: int) -> u16;

    /// Sample the node's height at a grid coordinate.
    fn get_height(&self, x: i64, y: i64) -> (r: u16)
        ensures
            r == self.spec_height(x as int, y as int),
    ;
}

/// A node with the same height everywhere.
#[derive(Clone, Copy, PartialEq, Eq, Structural, Debug)]
pub struct ConstantNode {
    /// The constant height value.
    pub value: u16,
}

impl TerrainNode for ConstantNode {
    open spec fn spec_height(&self, x: int, y: int) -> u16 {
        self.value
    }

    fn get_height(&self, _x: i64, _y: i64) -> (r: u16)
        ensures
            r == self.value,
    {
        self.value
    }
}

/// A terrain definition: holds the node its heightmap values come from.
#[derive(Clone, Copy, Debug)]
pub struct Terrain<T: TerrainNode> {
    /// The definition from which the Terrain gets its heightmap values.
    pub def: T,
}

impl<T: TerrainNode> Terrain<T> {
    /// Wrap a height node as a terrain definition.
    pub fn from_node(def: T) -> (r: Terrain<T>)
        ensures
            r.def == def,
    {
        Terrain { def }
    }

    /// The raw height sample at a grid coordinate.
    pub fn compute_height_at_raw(&self, x: i64, y: i64) -> (r: u16)
        ensures
            r == self.def.spec_height(x as int, y as int),
    {
        self.def.get_height(x, y)
    }
}

impl Default for Terrain<ConstantNode> {
    /// A flat terrain at a modest height.
    fn default() -> (r: Self)
        ensures
            r.def == (ConstantNode { value: 64 }),
    {
        Terrain { def: ConstantNode { value: 64 } }
    }
}

/// The sum of a node list's heights, wrapping around the 16-bit range.
pub open spec fn sum_heights<T: TerrainNode>(nodes: Seq<T>, x: int, y: int) -> u16
    decreases nodes.len(),
{
    if nodes.len() == 0 {
        0u16
    } else {
        (((sum_heights(nodes.drop_last(), x, y) + nodes.last().spec_height(x, y)) % 0x10000) as u16)
    }
}

/// A node that adds up the heights of its children, wrapping on overflow.
#[derive(Clone, Debug)]
pub struct TerrainAdder<T: TerrainNode> {
    /// The nodes whose heights are summed.
    pub nodes: Vec<T>,
}

impl<T: TerrainNode> TerrainNode for TerrainAdder<T> {
    open spec fn spec_height(&self, x: int, y: int) -> u16 {
        sum_heights(self.nodes@, x, y)
    }

    fn get_height(&self, x: i64, y: i64) -> (r: u16)
        ensures
            r == sum_heights(self.nodes@, x as int, y as int),
    {
        let n = self.nodes.len();
        let mut acc: u16 = 0;
        let mut i: usize = 0;
        while i < n
            invariant
                i <= n,
                n == self.nodes@.len(),
                acc == sum_heights(self.nodes@.take(i as int), x as int, y as int),
            decreases n - i,
        {
            proof {
                assert(self.nodes@.take(i as int + 1).drop_last() =~= self.nodes@.take(i as int));
                assert(self.nodes@.take(i as int + 1).last() == self.nodes@[i as int]);
            }
            let h = self.nodes[i].get_height(x, y);
            acc = (((acc as u32) + (h as u32)) % 0x10000) as u16;
            i += 1;
        }
        proof {
            assert(self.nodes@.take(n as int) =~= self.nodes@);
        }
        acc
    }
}

/// The product of a node list's heights, each partial product scaled down
/// sixteenfold and wrapped to the 16-bit range (a fixed-point product in
/// sixteenths).
pub open spec fn product_heights<T: TerrainNode>(nodes: Seq<T>, x: int, y: int) -> u16
    decreases nodes.len(),
{
    if nodes.len() == 0 {
        1u16
    } else {
        ((((product_heights(nodes.drop_last(), x, y) as int)
            * (nodes.last().spec_height(x, y) as int) / 16) % 0x10000) as u16)
    }
}

/// A node that multiplies the heights of its children, treating heights as
/// fixed-point values in sixteenths.
#[derive(Clone, Debug)]
pub struct TerrainMultiplier<T: TerrainNode> {
    /// The nodes whose heights are multiplied.
    pub nodes: Vec<T>,
}

impl<T: TerrainNode> TerrainNode for TerrainMultiplier<T> {
    open spec fn spec_height(&self, x: int, y: int) -> u16 {
        product_heights(self.nodes@, x, y)
    }

    fn get_height(&self, x: i64, y: i64) -> (r: u16)
        ensures
            r == product_heights(self.nodes@, x as int, y as int),
    {
        let n = self.nodes.len();
        let mut acc: u16 = 1;
        let mut i: usize = 0;
        while i < n
            invariant
                i <= n,
                n == self.nodes@.len(),
                acc == product_heights(self.nodes@.take(i as int), x as int, y as int),
            decreases n - i,
        {
            proof {
                assert(self.nodes@.take(i as int + 1).drop_last() =~= self.nodes@.take(i as int));
                assert(self.nodes@.take(i as int + 1).last() == self.nodes@[i as int]);
            }
            let h = self.nodes[i].get_height(x, y);
            proof {
                assert((acc as int) * (h as int) <= 0xFFFF * 0xFFFF) by (nonlinear_arith)
                    requires acc <= 0xFFFF && h <= 0xFFFF;
            }
            acc = ((((acc as u32) * (h as u32)) / 16) % 0x10000) as u16;
            i += 1;
        }
        proof {
            assert(self.nodes@.take(n as int) =~= self.nodes@);
        }
        acc
    }
}

} // verus!

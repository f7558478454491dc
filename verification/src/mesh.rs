//! Topology of the tower's finite-element mesh: a grid of 5 x 4 nodes on
//! every level from the ground (level 0) to the top, and five tetrahedra in
//! each of the 4 x 3 cells between two levels. Coordinates and material
//! values are attached elsewhere; here are node numbering and connectivity.
use vstd::prelude::*;

verus! {

/// Nodes across the width of a level.
pub const NODES_X: u32 = 5;

/// Nodes across the depth of a level.
pub const NODES_Y: u32 = 4;

/// Nodes on one level.
pub const NODES_PER_LEVEL: u32 = 20;

/// Tetrahedra between two levels: five in each of the 4 x 3 cells.
pub const ELEMENTS_PER_LAYER: u32 = 60;

/// A mesh node: its number, its level (0 is the ground) and its grid
/// position on that level.
#[derive(Debug, Clone, Copy, PartialEq, Eq, Structural)]
pub struct GridNode {
    pub node_id: u32,
    pub level: u8,
    pub ix: u8,
    pub iy: u8,
}

/// A tetrahedral element: its number, its four nodes and the layer
/// (1-based) it belongs to.
#[derive(Debug, Clone, Copy, PartialEq, Eq)]
pub struct ElementTopology {
    pub element_id: u32,
    pub node_ids: [u32; 4],
    pub layer_id: u8,
}

/// The `k`-th node: levels are numbered bottom up, and on each level rows
/// of 5 nodes follow each other.
pub open spec fn grid_node(k: int) -> GridNode {
    GridNode {
        node_id: k as u32,
        level: (k / 20) as u8,
        ix: (k % 5) as u8,
        iy: ((k % 20) / 5) as u8,
    }
}

/// The lowest node of cell `cell` (0..12) on level `level`.
pub open spec fn cell_base(level: int, cell: int) -> int {
    level * 20 + (cell / 4) * 5 + (cell % 4)
}

/// The four nodes of tetrahedron `q` (0..5) of the cell whose lowest node
/// is `b`: with `b1 = b + 1`, `b2 = b + 5`, `b3 = b + 6` on the lower level
/// and `t0`..`t3` the nodes 20 above them.
pub open spec fn quad_nodes(b: int, q: int) -> Seq<u32> {
    let b0 = b as u32;
    let b1 = (b + 1) as u32;
    let b2 = (b + 5) as u32;
    let b3 = (b + 6) as u32;
    let t0 = (b + 20) as u32;
    let t1 = (b + 21) as u32;
    let t2 = (b + 25) as u32;
    let t3 = (b + 26) as u32;
    if q == 0 {
        seq![b0, b1, b2, t0]
    } else if q == 1 {
        seq![b1, b3, b2, t1]
    } else if q == 2 {
        seq![b2, b3, t2, t0]
    } else if q == 3 {
        seq![b1, t1, t0, b0]
    } else {
        seq![t0, t1, t2, t3]
    }
}

/// The nodes of the `e`-th element: elements run layer by layer, cell by
/// cell (rows of 4 cells), five per cell.
pub open spec fn element_nodes(e: int) -> Seq<u32> {
    let level = e / 60;
    let r = e % 60;
    quad_nodes(cell_base(level, r / 5), r % 5)
}

/// The mesh nodes of a tower with `n_layers` layers, numbered in order.
pub fn mesh_nodes(n_layers: u8) -> (nodes: Vec<GridNode>)
    ensures
        nodes@.len() == (n_layers as int + 1) * 20,
        forall|k: int| 0 <= k < nodes@.len() ==> #[trigger] nodes@[k] == grid_node(k),
{
    let total: u32 = ((n_layers as u32) + 1) * NODES_PER_LEVEL;
    let mut nodes: Vec<GridNode> = Vec::new();
    let mut k: u32 = 0;
    while k < total
        invariant
            total == (n_layers as int + 1) * 20,
            k <= total,
            nodes@.len() == k,
            forall|j: int| 0 <= j < k ==> #[trigger] nodes@[j] == grid_node(j),
        decreases total - k,
    {
        let node = GridNode {
            node_id: k,
            level: (k / NODES_PER_LEVEL) as u8,
            ix: (k % NODES_X) as u8,
            iy: ((k % NODES_PER_LEVEL) / NODES_X) as u8,
        };
        nodes.push(node);
        k = k + 1;
    }
    nodes
}

/// The tetrahedra of a tower with `n_layers` layers, numbered in order.
pub fn mesh_elements(n_layers: u8) -> (elements: Vec<ElementTopology>)
    ensures
        elements@.len() == n_layers as int * 60,
        forall|e: int|
            0 <= e < elements@.len() ==> {
                &&& (#[trigger] elements@[e]).element_id == e
                &&& elements@[e].layer_id == e / 60 + 1
                &&& elements@[e].node_ids@ == element_nodes(e)
            },
{
    let total: u32 = (n_layers as u32) * ELEMENTS_PER_LAYER;
    let mut elements: Vec<ElementTopology> = Vec::new();
    let mut e: u32 = 0;
    while e < total
        invariant
            total == n_layers as int * 60,
            e <= total,
            elements@.len() == e,
            forall|j: int|
                0 <= j < e ==> {
                    &&& (#[trigger] elements@[j]).element_id == j
                    &&& elements@[j].layer_id == j / 60 + 1
                    &&& elements@[j].node_ids@ == element_nodes(j)
                },
        decreases total - e,
    {
        let level = e / ELEMENTS_PER_LAYER;
        let r = e % ELEMENTS_PER_LAYER;
        let cell = r / 5;
        let q = r % 5;
        let b0 = level * NODES_PER_LEVEL + (cell / 4) * NODES_X + (cell % 4);
        assert(level < n_layers);
        assert(b0 <= level * 20 + 13);
        let b1 = b0 + 1;
        let b2 = b0 + NODES_X;
        let b3 = b2 + 1;
        let t0 = b0 + NODES_PER_LEVEL;
        let t1 = b1 + NODES_PER_LEVEL;
        let t2 = b2 + NODES_PER_LEVEL;
        let t3 = b3 + NODES_PER_LEVEL;
        let node_ids: [u32; 4] = if q == 0 {
            [b0, b1, b2, t0]
        } else if q == 1 {
            [b1, b3, b2, t1]
        } else if q == 2 {
            [b2, b3, t2, t0]
        } else if q == 3 {
            [b1, t1, t0, b0]
        } else {
            [t0, t1, t2, t3]
        };
        proof {
            assert(node_ids@ =~= element_nodes(e as int));
        }
        elements.push(ElementTopology { element_id: e, node_ids, layer_id: (level + 1) as u8 });
        e = e + 1;
    }
    elements
}

/// Every element of an `n_layers`-layer mesh belongs to one of the layers
/// 1 to `n_layers`, and names only nodes of the mesh, drawn from its own
/// level and the level above.
pub proof fn lemma_elements_within_mesh(n_layers: u8, e: int, i: int)
    requires
        0 <= e < n_layers as int * 60,
        0 <= i < 4,
    ensures
        1 <= e / 60 + 1 <= n_layers,
        element_nodes(e)[i] < (n_layers as int + 1) * 20,
        (e / 60) * 20 <= element_nodes(e)[i] < (e / 60 + 2) * 20,
{
    let level = e / 60;
    let r = e % 60;
    let b = cell_base(level, r / 5);
    assert(level < n_layers);
    assert(level * 20 <= b <= level * 20 + 13);
}

/// The node at grid column `x`, row `y` and level `z`.
pub open spec fn node_at(x: int, y: int, z: int) -> int {
    z * 20 + y * 5 + x
}

/// The tetrahedra of a cell, named by its corners: element `e` lies in cell
/// column `ix = c % 4`, row `iy = c / 4` (with `c = (e % 60) / 5`) between
/// levels `z = e / 60` and `z + 1`, and the five tetrahedra of a cell, in
/// order, take the corners
/// (0,0,0) (1,0,0) (0,1,0) (0,0,1);
/// (1,0,0) (1,1,0) (0,1,0) (1,0,1);
/// (0,1,0) (1,1,0) (0,1,1) (0,0,1);
/// (1,0,0) (1,0,1) (0,0,1) (0,0,0);
/// (0,0,1) (1,0,1) (0,1,1) (1,1,1), as offsets from the cell's lowest
/// corner. Each uses four distinct corners of its own cell, and the grid
/// position of each node, read back through the node numbering, is that
/// corner. (This holds for every element of a mesh of up to 255 layers.)
pub proof fn lemma_elements_use_cell_corners(n_layers: u8, e: int)
    requires
        0 <= e < n_layers as int * 60,
    ensures
        ({
            let z = e / 60;
            let c = (e % 60) / 5;
            let ix = c % 4;
            let iy = c / 4;
            let q = e % 5;
            let n = element_nodes(e);
            let at = |dx: int, dy: int, dz: int| node_at(ix + dx, iy + dy, z + dz) as u32;
            &&& q == 0 ==> n == seq![at(0, 0, 0), at(1, 0, 0), at(0, 1, 0), at(0, 0, 1)]
            &&& q == 1 ==> n == seq![at(1, 0, 0), at(1, 1, 0), at(0, 1, 0), at(1, 0, 1)]
            &&& q == 2 ==> n == seq![at(0, 1, 0), at(1, 1, 0), at(0, 1, 1), at(0, 0, 1)]
            &&& q == 3 ==> n == seq![at(1, 0, 0), at(1, 0, 1), at(0, 0, 1), at(0, 0, 0)]
            &&& q == 4 ==> n == seq![at(0, 0, 1), at(1, 0, 1), at(0, 1, 1), at(1, 1, 1)]
            &&& forall|i: int, j: int| 0 <= i < j < 4 ==> n[i] != n[j]
            &&& forall|i: int|
                0 <= i < 4 ==> {
                    let g = grid_node(#[trigger] n[i] as int);
                    &&& z <= g.level <= z + 1
                    &&& ix <= g.ix <= ix + 1
                    &&& iy <= g.iy <= iy + 1
                }
        }),
{
    let z = e / 60;
    let c = (e % 60) / 5;
    let ix = c % 4;
    let iy = c / 4;
    let b = cell_base(z, c);
    assert(0 <= ix < 4 && 0 <= iy < 3);
    assert(b == node_at(ix, iy, z));
    lemma_corner_position(ix, iy, z, 0, 0, 0);
    lemma_corner_position(ix, iy, z, 1, 0, 0);
    lemma_corner_position(ix, iy, z, 0, 1, 0);
    lemma_corner_position(ix, iy, z, 1, 1, 0);
    lemma_corner_position(ix, iy, z, 0, 0, 1);
    lemma_corner_position(ix, iy, z, 1, 0, 1);
    lemma_corner_position(ix, iy, z, 0, 1, 1);
    lemma_corner_position(ix, iy, z, 1, 1, 1);
}

/// A cell corner's number reads back as its grid position.
proof fn lemma_corner_position(ix: int, iy: int, z: int, dx: int, dy: int, dz: int)
    requires
        0 <= ix < 4,
        0 <= iy < 3,
        0 <= z,
        0 <= dx <= 1,
        0 <= dy <= 1,
        0 <= dz <= 1,
    ensures
        ({
            let v = node_at(ix + dx, iy + dy, z + dz);
            &&& v / 20 == z + dz
            &&& v % 5 == ix + dx
            &&& (v % 20) / 5 == iy + dy
        }),
{
    let v = node_at(ix + dx, iy + dy, z + dz);
    let w = (iy + dy) * 5 + (ix + dx);
    assert(0 <= w < 20);
    assert(v == (z + dz) * 20 + w);
    assert(v / 20 == z + dz && v % 20 == w) by (nonlinear_arith)
        requires
            v == (z + dz) * 20 + w,
            0 <= w < 20,
            0 <= z + dz,
    ;
    assert(v % 5 == ix + dx) by (nonlinear_arith)
        requires
            v == ((z + dz) * 4 + (iy + dy)) * 5 + (ix + dx),
            0 <= ix + dx < 5,
            0 <= (z + dz) * 4 + (iy + dy),
    ;
    assert(w / 5 == iy + dy);
}

/// The ground level holds exactly the first 20 nodes, the ones the
/// boundary conditions fix.
pub proof fn lemma_ground_nodes(k: int)
    requires
        0 <= k,
    ensures
        (k / 20 == 0) == (k < 20),
{
}

} // verus!

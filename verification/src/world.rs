//! The streaming world: chunks keyed by coordinate, and the render slot
//! table that tracks which of them are visible.
//!
//! The visible-window invariant is the heart of this module: a chunk holds a
//! render slot exactly when its coordinates lie within Chebyshev distance 8
//! (the view radius) of the camera's chunk and the chunk is present in the
//! map. Slot indices are unique while occupied, never exceed the fixed
//! capacity of one slot per window cell, and are reused once freed.

use vstd::prelude::*;

use crate::block::Block;
use crate::chunk::{
    block_index, lemma_coord_decompose, spec_chunk_coord, spec_chunk_relative, to_chunk_pos,
    world_to_chunk_relative, Chunk,
};
use crate::packets::{InitChunk, ServerPacket, SetBlock, SetBlocks, SetContiguousBlocks};
use crate::slots::SlotTable;

use std::collections::HashMap;

verus! {

broadcast use vstd::std_specs::hash::group_hash_axioms;

/// Chebyshev view radius in chunks.
pub const CHUNK_VIEW_RADIUS: i32 = 8;

/// One slot per cell of the visible window: the radius on each side and one
/// chunk in the middle, squared.
pub const TOTAL_VIEWABLE_CHUNKS: usize = 17 * 17;

/// A chunk coordinate pair packed into one map key.
pub open spec fn spec_key(x: i32, z: i32) -> u64 {
    (((x as u32) as int) * 0x100000000 + ((z as u32) as int)) as u64
}

/// The packed key of integer chunk coordinates (meaningful when both fit
/// `i32`, which every coordinate in the world does).
pub open spec fn key_at(x: int, z: int) -> u64 {
    spec_key(x as i32, z as i32)
}

/// Packing is injective: equal keys mean equal coordinates.
pub proof fn lemma_key_injective(x1: i32, z1: i32, x2: i32, z2: i32)
    ensures
        spec_key(x1, z1) == spec_key(x2, z2) ==> (x1 == x2 && z1 == z2),
{
    assert((((x1 as u32) as u64) * 0x100000000 + ((z1 as u32) as u64) == ((x2 as u32) as u64)
        * 0x100000000 + ((z2 as u32) as u64)) ==> (x1 == x2 && z1 == z2)) by (bit_vector);
}

/// Packs chunk coordinates into a map key.
fn chunk_key(x: i32, z: i32) -> (r: u64)
    ensures
        r == spec_key(x, z),
{
    ((x as u32) as u64) * 0x100000000 + ((z as u32) as u64)
}

/// Whether `(x, z)` lies in the visible window around camera chunk
/// `(cx, cz)`: within Chebyshev distance 8 in chunk units.
pub open spec fn in_window(cx: int, cz: int, x: int, z: int) -> bool {
    cx - 8 <= x <= cx + 8 && cz - 8 <= z <= cz + 8
}

/// The scan index of a window cell; the window is walked `x` first, then
/// `z`, seventeen cells per row.
pub open spec fn cell_of(cx: int, cz: int, x: int, z: int) -> int {
    (x - (cx - 8)) * 17 + (z - (cz - 8))
}

pub open spec fn cell_coord_x(cx: int, c: int) -> int {
    cx - 8 + c / 17
}

pub open spec fn cell_coord_z(cz: int, c: int) -> int {
    cz - 8 + c % 17
}

/// A window coordinate's cell is in range and maps back to the coordinate.
pub proof fn lemma_cell_of_window(cx: int, cz: int, x: int, z: int)
    requires
        in_window(cx, cz, x, z),
    ensures
        0 <= cell_of(cx, cz, x, z) < 289,
        cell_coord_x(cx, cell_of(cx, cz, x, z)) == x,
        cell_coord_z(cz, cell_of(cx, cz, x, z)) == z,
{
    let q = x - (cx - 8);
    let rem = z - (cz - 8);
    let c = q * 17 + rem;
    assert(0 <= q < 17 && 0 <= rem < 17);
    assert(0 <= c < 289) by (nonlinear_arith)
        requires
            0 <= q < 17 && 0 <= rem < 17 && c == q * 17 + rem,
    ;
    vstd::arithmetic::div_mod::lemma_fundamental_div_mod_converse(c, 17, q, rem);
}

/// A cell's coordinate lies in the window.
pub proof fn lemma_cell_coord_window(cx: int, cz: int, c: int)
    requires
        0 <= c < 289,
    ensures
        in_window(cx, cz, cell_coord_x(cx, c), cell_coord_z(cz, c)),
        cell_of(cx, cz, cell_coord_x(cx, c), cell_coord_z(cz, c)) == c,
{
    vstd::arithmetic::div_mod::lemma_fundamental_div_mod(c, 17);
    assert(0 <= c / 17 < 17) by (nonlinear_arith)
        requires
            0 <= c < 289 && c == 17 * (c / 17) + c % 17 && 0 <= c % 17 < 17,
    ;
}

/// The camera chunk stays far enough from the ends of the coordinate range
/// that the window arithmetic cannot overflow; every chunk coordinate of an
/// actual world position satisfies it with room to spare.
pub open spec fn cam_in_range(c: int) -> bool {
    -0x8000000 <= c <= 0x8000000
}

/// How many of the first `k` window cells hold a coordinate that is present
/// in the chunk map.
pub open spec fn visible_count(dom: Set<u64>, cx: int, cz: int, k: int) -> int
    decreases k,
{
    if k <= 0 {
        0
    } else {
        visible_count(dom, cx, cz, k - 1) + (if dom.contains(
            key_at(cell_coord_x(cx, k - 1), cell_coord_z(cz, k - 1)),
        ) {
            1int
        } else {
            0int
        })
    }
}

pub proof fn lemma_vc_bounds(dom: Set<u64>, cx: int, cz: int, k: int)
    ensures
        0 <= visible_count(dom, cx, cz, k),
        k >= 0 ==> visible_count(dom, cx, cz, k) <= k,
    decreases k,
{
    if k > 0 {
        lemma_vc_bounds(dom, cx, cz, k - 1);
    }
}

/// Two integer coordinates in `i32` range with equal keys are equal.
pub proof fn lemma_key_at_injective(x1: int, z1: int, x2: int, z2: int)
    requires
        i32::MIN <= x1 <= i32::MAX,
        i32::MIN <= z1 <= i32::MAX,
        i32::MIN <= x2 <= i32::MAX,
        i32::MIN <= z2 <= i32::MAX,
        key_at(x1, z1) == key_at(x2, z2),
    ensures
        x1 == x2 && z1 == z2,
{
    lemma_key_injective(x1 as i32, z1 as i32, x2 as i32, z2 as i32);
}

/// Window coordinates around an in-range camera fit `i32`.
pub proof fn lemma_window_coord_range(cx: int, cz: int, x: int, z: int)
    requires
        cam_in_range(cx),
        cam_in_range(cz),
        in_window(cx, cz, x, z),
    ensures
        i32::MIN <= x <= i32::MAX,
        i32::MIN <= z <= i32::MAX,
{
}

/// Adding a key inside the window raises the count by one exactly on the
/// cells past its own.
pub proof fn lemma_vc_insert_window(dom: Set<u64>, cx: int, cz: int, x: int, z: int, k: int)
    requires
        cam_in_range(cx),
        cam_in_range(cz),
        in_window(cx, cz, x, z),
        !dom.contains(key_at(x, z)),
        k <= 289,
    ensures
        visible_count(dom.insert(key_at(x, z)), cx, cz, k) == visible_count(dom, cx, cz, k) + (
        if cell_of(cx, cz, x, z) < k {
            1int
        } else {
            0int
        }),
    decreases k,
{
    lemma_cell_of_window(cx, cz, x, z);
    if k > 0 {
        lemma_vc_insert_window(dom, cx, cz, x, z, k - 1);
        let xc = cell_coord_x(cx, k - 1);
        let zc = cell_coord_z(cz, k - 1);
        lemma_cell_coord_window(cx, cz, k - 1);
        lemma_window_coord_range(cx, cz, xc, zc);
        lemma_window_coord_range(cx, cz, x, z);
        if key_at(xc, zc) == key_at(x, z) {
            lemma_key_at_injective(xc, zc, x, z);
            assert(k - 1 == cell_of(cx, cz, x, z));
        }
    }
}

/// Removing a key inside the window lowers the count by one exactly on the
/// cells past its own.
pub proof fn lemma_vc_remove_window(dom: Set<u64>, cx: int, cz: int, x: int, z: int, k: int)
    requires
        cam_in_range(cx),
        cam_in_range(cz),
        in_window(cx, cz, x, z),
        dom.contains(key_at(x, z)),
        k <= 289,
    ensures
        visible_count(dom.remove(key_at(x, z)), cx, cz, k) == visible_count(dom, cx, cz, k) - (
        if cell_of(cx, cz, x, z) < k {
            1int
        } else {
            0int
        }),
{
    let dom2 = dom.remove(key_at(x, z));
    assert(dom2.insert(key_at(x, z)) =~= dom);
    lemma_vc_insert_window(dom2, cx, cz, x, z, k);
}

/// Adding or removing a key outside the window leaves the count unchanged.
pub proof fn lemma_vc_insert_outside(dom: Set<u64>, cx: int, cz: int, x: int, z: int, k: int)
    requires
        cam_in_range(cx),
        cam_in_range(cz),
        !in_window(cx, cz, x, z),
        i32::MIN <= x <= i32::MAX,
        i32::MIN <= z <= i32::MAX,
        k <= 289,
    ensures
        visible_count(dom.insert(key_at(x, z)), cx, cz, k) == visible_count(dom, cx, cz, k),
        visible_count(dom.remove(key_at(x, z)), cx, cz, k) == visible_count(dom, cx, cz, k),
    decreases k,
{
    if k > 0 {
        lemma_vc_insert_outside(dom, cx, cz, x, z, k - 1);
        let xc = cell_coord_x(cx, k - 1);
        let zc = cell_coord_z(cz, k - 1);
        lemma_cell_coord_window(cx, cz, k - 1);
        lemma_window_coord_range(cx, cz, xc, zc);
        if key_at(xc, zc) == key_at(x, z) {
            lemma_key_at_injective(xc, zc, x, z);
        }
    }
}

/// With one window cell unoccupied, the count over the whole window is
/// strictly below the capacity.
pub proof fn lemma_vc_missing(dom: Set<u64>, cx: int, cz: int, x: int, z: int, k: int)
    requires
        cam_in_range(cx),
        cam_in_range(cz),
        in_window(cx, cz, x, z),
        !dom.contains(key_at(x, z)),
        cell_of(cx, cz, x, z) < k,
        k <= 289,
    ensures
        visible_count(dom, cx, cz, k) <= k - 1,
    decreases k,
{
    lemma_cell_of_window(cx, cz, x, z);
    if cell_of(cx, cz, x, z) == k - 1 {
        lemma_vc_bounds(dom, cx, cz, k - 1);
        assert(cell_coord_x(cx, k - 1) == x && cell_coord_z(cz, k - 1) == z);
    } else {
        lemma_vc_missing(dom, cx, cz, x, z, k - 1);
    }
}

/// The count depends only on which keys the map holds.
pub proof fn lemma_vc_congruence(dom1: Set<u64>, dom2: Set<u64>, cx: int, cz: int, k: int)
    requires
        dom1 =~= dom2,
    ensures
        visible_count(dom1, cx, cz, k) == visible_count(dom2, cx, cz, k),
{
    assert(dom1 == dom2);
}

/// What stays fixed about a chunk while the slot table is reorganised: its
/// grid, mesh state and coordinates.
pub open spec fn chunk_static_eq(a: Chunk, b: Chunk) -> bool {
    &&& a.wf() == b.wf()
    &&& a.spec_blocks() == b.spec_blocks()
    &&& a.spec_mesh() == b.spec_mesh()
    &&& a.spec_dirty() == b.spec_dirty()
    &&& a.spec_chunk_x() == b.spec_chunk_x()
    &&& a.spec_chunk_z() == b.spec_chunk_z()
}

/// Two chunk maps with the same keys and the same static content.
pub open spec fn same_chunks_content(m1: Map<u64, Chunk>, m2: Map<u64, Chunk>) -> bool {
    &&& m1.dom() == m2.dom()
    &&& forall|k: u64| m1.contains_key(k) ==> chunk_static_eq(m1[k], #[trigger] m2[k])
}

/// The streaming world state.
pub struct World {
    chunks: HashMap<u64, Chunk>,
    coords: Vec<u64>,
    slots: SlotTable,
    element_stride: u32,
    cam_cx: i32,
    cam_cz: i32,
    position_initialized: bool,
}

impl World {
    /// The chunk map as the spec sees it.
    pub closed spec fn spec_chunks(&self) -> Map<u64, Chunk> {
        self.chunks@
    }

    pub closed spec fn spec_slots(&self) -> Seq<Option<(i32, i32)>> {
        self.slots.slots()
    }

    pub closed spec fn spec_slot_len(&self) -> int {
        self.slots.spec_len()
    }

    pub closed spec fn spec_cam_cx(&self) -> int {
        self.cam_cx as int
    }

    pub closed spec fn spec_cam_cz(&self) -> int {
        self.cam_cz as int
    }

    pub closed spec fn spec_stride(&self) -> u32 {
        self.element_stride
    }

    pub closed spec fn spec_position_initialized(&self) -> bool {
        self.position_initialized
    }

    /// Whether a chunk exists at the given chunk coordinates.
    pub open spec fn spec_contains(&self, x: int, z: int) -> bool {
        self.spec_chunks().contains_key(key_at(x, z))
    }

    /// The chunk at the given chunk coordinates.
    pub open spec fn spec_chunk_at(&self, x: int, z: int) -> Chunk {
        self.spec_chunks()[key_at(x, z)]
    }

    /// The render slot of the chunk at the given chunk coordinates, absent
    /// while the chunk is not visible.
    pub open spec fn spec_slot_of(&self, x: int, z: int) -> Option<usize> {
        if self.spec_contains(x, z) {
            self.spec_chunk_at(x, z).spec_uniform_index()
        } else {
            None
        }
    }

    /// The material at a world position: air wherever no chunk exists.
    pub open spec fn spec_block_at(&self, x: int, y: int, z: int) -> Block {
        if self.spec_contains(spec_chunk_coord(x), spec_chunk_coord(z)) {
            self.spec_chunk_at(spec_chunk_coord(x), spec_chunk_coord(z)).spec_blocks()[block_index(
                spec_chunk_relative(x),
                y,
                spec_chunk_relative(z),
            )]
        } else {
            Block::Air
        }
    }

    /// The parts of well-formedness that do not depend on where the camera
    /// is: the slot table and chunk map agree with each other.
    pub closed spec fn base_wf(&self) -> bool {
        &&& self.slots.wf()
        &&& self.slots.spec_capacity() == 289
        &&& cam_in_range(self.cam_cx as int)
        &&& cam_in_range(self.cam_cz as int)
        &&& (self.element_stride as int) * 289 <= 0x100000000
        &&& self.coords@.to_set() == self.chunks@.dom()
        &&& self.coords@.no_duplicates()
        &&& forall|k: u64|
            #[trigger] self.chunks@.contains_key(k) ==> {
                let ch = self.chunks@[k];
                &&& ch.wf()
                &&& spec_key(ch.spec_chunk_x(), ch.spec_chunk_z()) == k
                &&& match ch.spec_uniform_index() {
                    Some(i) => i < 289 && self.slots.slots()[i as int] == Some(
                        (ch.spec_chunk_x(), ch.spec_chunk_z()),
                    ) && ch.spec_uniform_offset() == (i as int) * (self.element_stride as int),
                    None => true,
                }
            }
        &&& forall|i: int|
            0 <= i < 289 ==> match #[trigger] self.slots.slots()[i] {
                Some(c) => self.chunks@.contains_key(spec_key(c.0, c.1))
                    && self.chunks@[spec_key(c.0, c.1)].spec_uniform_index() == Some(i as usize),
                None => true,
            }
    }

    /// The visible-window invariant: a chunk is slotted exactly when it lies
    /// inside the window, and the table holds exactly one occupant per
    /// occupied window cell.
    pub closed spec fn window_wf(&self) -> bool {
        &&& forall|k: u64|
            #[trigger] self.chunks@.contains_key(k) ==> {
                let ch = self.chunks@[k];
                ch.spec_uniform_index() is Some <==> in_window(
                    self.cam_cx as int,
                    self.cam_cz as int,
                    ch.spec_chunk_x() as int,
                    ch.spec_chunk_z() as int,
                )
            }
        &&& self.slots.spec_len() == visible_count(
            self.chunks@.dom(),
            self.cam_cx as int,
            self.cam_cz as int,
            289,
        )
    }

    pub closed spec fn wf(&self) -> bool {
        self.base_wf() && self.window_wf()
    }

    /// A fresh world with no chunks, camera at the origin chunk, and slots
    /// sized to the visible window. The stride is the per-slot byte width of
    /// the uniform staging buffer; it must leave every slot offset within
    /// 32 bits.
    pub fn new(element_stride: u32) -> (r: World)
        requires
            element_stride as int * 289 <= 0x100000000,
        ensures
            r.wf(),
            r.spec_chunks() == Map::<u64, Chunk>::empty(),
            r.spec_cam_cx() == 0,
            r.spec_cam_cz() == 0,
            r.spec_stride() == element_stride,
            !r.spec_position_initialized(),
    {
        let slots = SlotTable::with_capacity(TOTAL_VIEWABLE_CHUNKS);
        let chunks: HashMap<u64, Chunk> = HashMap::new();
        let r = World {
            chunks,
            coords: Vec::new(),
            slots,
            element_stride,
            cam_cx: 0,
            cam_cz: 0,
            position_initialized: false,
        };
        proof {
            assert(r.coords@.to_set() =~= r.chunks@.dom());
            lemma_vc_of_empty(r.chunks@.dom(), 0, 0, 289);
        }
        r
    }

    /// Where the camera's chunk is.
    pub fn camera_chunk(&self) -> (r: (i32, i32))
        ensures
            r.0 == self.spec_cam_cx(),
            r.1 == self.spec_cam_cz(),
    {
        (self.cam_cx, self.cam_cz)
    }

    /// Whether a server position packet has arrived yet.
    pub fn position_initialized(&self) -> (r: bool)
        ensures
            r == self.spec_position_initialized(),
    {
        self.position_initialized
    }

    /// Releases every slot and re-scans the window around the current
    /// camera chunk, slotting exactly the mapped coordinates inside it.
    fn update_viewable_chunks(&mut self)
        requires
            old(self).base_wf(),
        ensures
            final(self).wf(),
            same_chunks_content(old(self).spec_chunks(), final(self).spec_chunks()),
            final(self).spec_cam_cx() == old(self).spec_cam_cx(),
            final(self).spec_cam_cz() == old(self).spec_cam_cz(),
            final(self).spec_stride() == old(self).spec_stride(),
            final(self).spec_position_initialized() == old(self).spec_position_initialized(),
    {
        let ghost m0 = self.chunks@;
        // Release every occupied slot: afterwards no chunk holds an index.
        let mut i: usize = 0;
        while i < TOTAL_VIEWABLE_CHUNKS
            invariant
                i <= 289,
                self.slots == old(self).slots,
                self.slots.wf(),
                self.slots.spec_capacity() == 289,
                self.cam_cx == old(self).cam_cx,
                self.cam_cz == old(self).cam_cz,
                self.element_stride == old(self).element_stride,
                self.position_initialized == old(self).position_initialized,
                self.coords == old(self).coords,
                cam_in_range(self.cam_cx as int),
                cam_in_range(self.cam_cz as int),
                (self.element_stride as int) * 289 <= 0x100000000,
                self.coords@.to_set() == self.chunks@.dom(),
                self.coords@.no_duplicates(),
                m0 == old(self).spec_chunks(),
                same_chunks_content(m0, self.chunks@),
                forall|k: u64|
                    #[trigger] self.chunks@.contains_key(k) ==> {
                        let ch = self.chunks@[k];
                        &&& ch.wf()
                        &&& spec_key(ch.spec_chunk_x(), ch.spec_chunk_z()) == k
                        &&& match ch.spec_uniform_index() {
                            Some(t) => i <= t < 289 && self.slots.slots()[t as int] == Some(
                                (ch.spec_chunk_x(), ch.spec_chunk_z()),
                            ),
                            None => true,
                        }
                    },
                forall|j: int|
                    i <= j < 289 ==> match #[trigger] self.slots.slots()[j] {
                        Some(c) => self.chunks@.contains_key(spec_key(c.0, c.1))
                            && self.chunks@[spec_key(c.0, c.1)].spec_uniform_index() == Some(
                            j as usize,
                        ),
                        None => true,
                    },
            decreases 289 - i,
        {
            match self.slots.get(i) {
                Some(c) => {
                    let k = chunk_key(c.0, c.1);
                    match self.chunks.remove(&k) {
                        Some(mut ch) => {
                            ch.set_slot(u32::MAX, None);
                            self.chunks.insert(k, ch);
                            proof {
                                assert(self.chunks@.dom() =~= m0.dom());
                                assert(self.coords@.to_set() == self.chunks@.dom());
                            }
                        },
                        None => {
                            proof {
                                assert(false);
                            }
                        },
                    }
                },
                None => {},
            }
            i = i + 1;
        }
        self.slots.clear();
        // Re-scan the window, handing the lowest free slot to each mapped
        // coordinate, in cell order.
        let cx = self.cam_cx;
        let cz = self.cam_cz;
        let mut x: i32 = cx - 8;
        while x <= cx + 8
            invariant
                cx == self.cam_cx,
                cz == self.cam_cz,
                cx - 8 <= x <= cx + 9,
                self.scan_loop_wf(m0, old(self), (x as int - (cx as int - 8)) * 17),
            decreases cx + 9 - x,
        {
            let mut z: i32 = cz - 8;
            while z <= cz + 8
                invariant
                    cx == self.cam_cx,
                    cz == self.cam_cz,
                    cx - 8 <= x <= cx + 8,
                    cz - 8 <= z <= cz + 9,
                    self.scan_loop_wf(
                        m0,
                        old(self),
                        (x as int - (cx as int - 8)) * 17 + (z as int - (cz as int - 8)),
                    ),
                decreases cz + 9 - z,
            {
                let ghost p = (x as int - (cx as int - 8)) * 17 + (z as int - (cz as int - 8));
                proof {
                    lemma_cell_of_window(cx as int, cz as int, x as int, z as int);
                    assert(cell_of(cx as int, cz as int, x as int, z as int) == p);
                    assert(0 <= p < 289);
                    lemma_vc_bounds(self.chunks@.dom(), cx as int, cz as int, p);
                }
                let k = chunk_key(x, z);
                if self.chunks.contains_key(&k) {
                    match self.chunks.remove(&k) {
                        Some(mut ch) => {
                            let idx = self.slots.insert((x, z));
                            proof {
                                assert((idx as int) * (self.element_stride as int) <= 288 * (
                                self.element_stride as int)) by (nonlinear_arith)
                                    requires
                                        idx <= 288,
                                ;
                            }
                            let offset = (idx as u32) * self.element_stride;
                            ch.set_slot(offset, Some(idx));
                            proof {
                                assert(ch.spec_chunk_x() == x && ch.spec_chunk_z() == z) by {
                                    assert(spec_key(ch.spec_chunk_x(), ch.spec_chunk_z()) == k);
                                    lemma_key_injective(ch.spec_chunk_x(), ch.spec_chunk_z(), x, z);
                                }
                            }
                            self.chunks.insert(k, ch);
                            proof {
                                assert(self.chunks@.dom() =~= m0.dom());
                            }
                        },
                        None => {
                            proof {
                                assert(false);
                            }
                        },
                    }
                }
                z = z + 1;
            }
            proof {
                assert((x as int + 1 - (cx as int - 8)) * 17 == (x as int - (cx as int - 8)) * 17
                    + 17) by (nonlinear_arith);
            }
            x = x + 1;
        }
        proof {
            assert forall|k: u64| #[trigger] self.chunks@.contains_key(k) implies {
                let ch = self.chunks@[k];
                ch.spec_uniform_index() is Some <==> in_window(
                    self.cam_cx as int,
                    self.cam_cz as int,
                    ch.spec_chunk_x() as int,
                    ch.spec_chunk_z() as int,
                )
            } by {
                let ch = self.chunks@[k];
                if in_window(
                    self.cam_cx as int,
                    self.cam_cz as int,
                    ch.spec_chunk_x() as int,
                    ch.spec_chunk_z() as int,
                ) {
                    lemma_cell_of_window(
                        self.cam_cx as int,
                        self.cam_cz as int,
                        ch.spec_chunk_x() as int,
                        ch.spec_chunk_z() as int,
                    );
                }
            }
        }
    }

    /// The invariant the window re-scan maintains, the first `p` cells
    /// already processed.
    spec fn scan_loop_wf(&self, m0: Map<u64, Chunk>, entry: &World, p: int) -> bool {
        &&& self.slots.wf()
        &&& self.slots.spec_capacity() == 289
        &&& self.element_stride == entry.element_stride
        &&& self.position_initialized == entry.position_initialized
        &&& self.coords == entry.coords
        &&& cam_in_range(self.cam_cx as int)
        &&& cam_in_range(self.cam_cz as int)
        &&& (self.element_stride as int) * 289 <= 0x100000000
        &&& self.coords@.to_set() == self.chunks@.dom()
        &&& self.coords@.no_duplicates()
        &&& same_chunks_content(m0, self.chunks@)
        &&& self.slots.spec_len() == visible_count(
            self.chunks@.dom(),
            self.cam_cx as int,
            self.cam_cz as int,
            p,
        )
        &&& forall|k: u64|
            #[trigger] self.chunks@.contains_key(k) ==> {
                let ch = self.chunks@[k];
                &&& ch.wf()
                &&& spec_key(ch.spec_chunk_x(), ch.spec_chunk_z()) == k
                &&& match ch.spec_uniform_index() {
                    Some(t) => {
                        &&& t < 289
                        &&& self.slots.slots()[t as int] == Some(
                            (ch.spec_chunk_x(), ch.spec_chunk_z()),
                        )
                        &&& ch.spec_uniform_offset() == (t as int) * (self.element_stride as int)
                        &&& in_window(
                            self.cam_cx as int,
                            self.cam_cz as int,
                            ch.spec_chunk_x() as int,
                            ch.spec_chunk_z() as int,
                        )
                        &&& cell_of(
                            self.cam_cx as int,
                            self.cam_cz as int,
                            ch.spec_chunk_x() as int,
                            ch.spec_chunk_z() as int,
                        ) < p
                    },
                    None => !in_window(
                        self.cam_cx as int,
                        self.cam_cz as int,
                        ch.spec_chunk_x() as int,
                        ch.spec_chunk_z() as int,
                    ) || cell_of(
                        self.cam_cx as int,
                        self.cam_cz as int,
                        ch.spec_chunk_x() as int,
                        ch.spec_chunk_z() as int,
                    ) >= p,
                }
            }
        &&& forall|i: int|
            0 <= i < 289 ==> match #[trigger] self.slots.slots()[i] {
                Some(c) => self.chunks@.contains_key(spec_key(c.0, c.1))
                    && self.chunks@[spec_key(c.0, c.1)].spec_uniform_index() == Some(i as usize),
                None => true,
            }
    }

    /// Moves the camera to the chunk that owns a world position and
    /// re-scans the visible window around it. This is the single point where
    /// camera moves reach the slot table, and it re-establishes the
    /// visible-window invariant for the new position.
    pub fn set_camera_position(&mut self, x: i32, z: i32)
        requires
            old(self).wf(),
        ensures
            final(self).wf(),
            final(self).spec_cam_cx() == spec_chunk_coord(x as int),
            final(self).spec_cam_cz() == spec_chunk_coord(z as int),
            same_chunks_content(old(self).spec_chunks(), final(self).spec_chunks()),
            final(self).spec_stride() == old(self).spec_stride(),
            final(self).spec_position_initialized(),
    {
        let (cx, cz) = to_chunk_pos(x, z);
        proof {
            lemma_chunk_coord_range(x as int);
            lemma_chunk_coord_range(z as int);
        }
        self.cam_cx = cx;
        self.cam_cz = cz;
        self.position_initialized = true;
        self.update_viewable_chunks();
    }
}

/// An empty chunk map makes every window cell unoccupied.
proof fn lemma_vc_of_empty(dom: Set<u64>, cx: int, cz: int, k: int)
    requires
        dom =~= Set::<u64>::empty(),
    ensures
        visible_count(dom, cx, cz, k) == 0,
    decreases k,
{
    if k > 0 {
        lemma_vc_of_empty(dom, cx, cz, k - 1);
    }
}

/// The chunk coordinate of any world coordinate keeps the camera far from
/// the ends of the integer range.
pub proof fn lemma_chunk_coord_range(v: int)
    requires
        i32::MIN <= v <= i32::MAX,
    ensures
        cam_in_range(spec_chunk_coord(v)),
        i32::MIN <= spec_chunk_coord(v) <= i32::MAX,
{
    vstd::arithmetic::div_mod::lemma_fundamental_div_mod(v, 16);
}

/// Voxel indices within a chunk are unique per coordinate triple.
pub proof fn lemma_block_index_injective(
    x1: int,
    y1: int,
    z1: int,
    x2: int,
    y2: int,
    z2: int,
)
    requires
        0 <= x1 < 16,
        0 <= y1 < 128,
        0 <= z1 < 16,
        0 <= x2 < 16,
        0 <= y2 < 128,
        0 <= z2 < 16,
        block_index(x1, y1, z1) == block_index(x2, y2, z2),
    ensures
        x1 == x2 && y1 == y2 && z1 == z2,
{
    let i1 = block_index(x1, y1, z1);
    assert(i1 == y1 * 256 + (z1 * 16 + x1)) by (nonlinear_arith)
        requires
            i1 == (y1 * 16 + z1) * 16 + x1,
    ;
    let i2 = block_index(x2, y2, z2);
    assert(i2 == y2 * 256 + (z2 * 16 + x2)) by (nonlinear_arith)
        requires
            i2 == (y2 * 16 + z2) * 16 + x2,
    ;
    assert(0 <= z1 * 16 + x1 < 256 && 0 <= z2 * 16 + x2 < 256) by (nonlinear_arith)
        requires
            0 <= x1 < 16 && 0 <= z1 < 16 && 0 <= x2 < 16 && 0 <= z2 < 16,
    ;
    vstd::arithmetic::div_mod::lemma_fundamental_div_mod_converse(i1, 256, y1, z1 * 16 + x1);
    vstd::arithmetic::div_mod::lemma_fundamental_div_mod_converse(i2, 256, y2, z2 * 16 + x2);
    vstd::arithmetic::div_mod::lemma_fundamental_div_mod_converse(z1 * 16 + x1, 16, z1, x1);
    vstd::arithmetic::div_mod::lemma_fundamental_div_mod_converse(z2 * 16 + x2, 16, z2, x2);
}

/// A voxel index stays inside the dense grid.
pub proof fn lemma_block_index_bounds(x: int, y: int, z: int)
    requires
        0 <= x < 16,
        0 <= y < 128,
        0 <= z < 16,
    ensures
        0 <= block_index(x, y, z) < 32768,
{
    assert(0 <= (y * 16 + z) * 16 + x < 32768) by (nonlinear_arith)
        requires
            0 <= x < 16 && 0 <= y < 128 && 0 <= z < 16,
    ;
}

/// Appending a fresh key keeps the coordinate list duplicate-free and grows
/// its set by that key.
proof fn lemma_coords_push(s: Seq<u64>, k: u64)
    requires
        s.no_duplicates(),
        !s.to_set().contains(k),
    ensures
        s.push(k).no_duplicates(),
        s.push(k).to_set() == s.to_set().insert(k),
{
    broadcast use vstd::seq_lib::group_seq_properties;

    assert(s.push(k).to_set() =~= s.to_set().insert(k)) by {
        assert forall|x: u64| s.push(k).to_set().contains(x) <==> s.to_set().insert(k).contains(
            x,
        ) by {
            assert(s.push(k).contains(x) <==> s.contains(x) || x == k) by {
                if s.push(k).contains(x) {
                    let i = choose|i: int| 0 <= i < s.push(k).len() && s.push(k)[i] == x;
                    if i < s.len() {
                        assert(s[i] == x);
                    }
                } else {
                    if s.contains(x) {
                        let i = choose|i: int| 0 <= i < s.len() && s[i] == x;
                        assert(s.push(k)[i] == x);
                    } else if x == k {
                        assert(s.push(k)[s.len() as int] == x);
                    }
                }
            }
        }
    }
    assert forall|i: int, j: int|
        0 <= i < j < s.push(k).len() implies s.push(k)[i] != s.push(k)[j] by {
        if j == s.len() {
            assert(s.contains(s[i]));
        }
    }
}

impl World {
    /// Makes sure a chunk exists at the given chunk coordinates, creating an
    /// all-air one classified against the current camera chunk if need be: a
    /// fresh chunk inside the window takes the lowest free slot, one outside
    /// stays slotless until a window re-scan brings it into range. The slot
    /// table cannot overflow here: the window invariant leaves a free slot
    /// for every window cell not yet mapped.
    pub fn get_or_init_chunk(&mut self, chunk_x: i32, chunk_z: i32)
        requires
            old(self).wf(),
        ensures
            final(self).wf(),
            final(self).spec_contains(chunk_x as int, chunk_z as int),
            old(self).spec_contains(chunk_x as int, chunk_z as int) ==> *final(self) == *old(self),
            !old(self).spec_contains(chunk_x as int, chunk_z as int) ==> {
                let ch = final(self).spec_chunk_at(chunk_x as int, chunk_z as int);
                &&& final(self).spec_chunks() == old(self).spec_chunks().insert(
                    spec_key(chunk_x, chunk_z),
                    ch,
                )
                &&& ch.spec_blocks() == Seq::new(32768nat, |i: int| Block::Air)
                &&& ch.spec_dirty()
                &&& ch.spec_mesh() is None
                &&& ch.spec_chunk_x() == chunk_x
                &&& ch.spec_chunk_z() == chunk_z
            },
            final(self).spec_cam_cx() == old(self).spec_cam_cx(),
            final(self).spec_cam_cz() == old(self).spec_cam_cz(),
            final(self).spec_stride() == old(self).spec_stride(),
            final(self).spec_position_initialized() == old(self).spec_position_initialized(),
    {
        let k = chunk_key(chunk_x, chunk_z);
        if self.chunks.contains_key(&k) {
            return ;
        }
        let visible = self.cam_cx - 8 <= chunk_x && chunk_x <= self.cam_cx + 8 && self.cam_cz - 8
            <= chunk_z && chunk_z <= self.cam_cz + 8;
        if visible {
            proof {
                lemma_cell_of_window(
                    self.cam_cx as int,
                    self.cam_cz as int,
                    chunk_x as int,
                    chunk_z as int,
                );
                lemma_vc_missing(
                    self.chunks@.dom(),
                    self.cam_cx as int,
                    self.cam_cz as int,
                    chunk_x as int,
                    chunk_z as int,
                    289,
                );
            }
            let idx = self.slots.insert((chunk_x, chunk_z));
            proof {
                assert((idx as int) * (self.element_stride as int) <= 288 * (
                self.element_stride as int)) by (nonlinear_arith)
                    requires
                        idx <= 288,
                ;
            }
            let offset = (idx as u32) * self.element_stride;
            let ch = Chunk::new(chunk_x, chunk_z, offset, Some(idx));
            self.chunks.insert(k, ch);
            self.coords.push(k);
            proof {
                lemma_coords_push(old(self).coords@, k);
                lemma_vc_insert_window(
                    old(self).chunks@.dom(),
                    self.cam_cx as int,
                    self.cam_cz as int,
                    chunk_x as int,
                    chunk_z as int,
                    289,
                );
                assert(self.chunks@.dom() =~= old(self).chunks@.dom().insert(k));
                assert forall|k2: u64| #[trigger] self.chunks@.contains_key(k2) implies {
                    let ch2 = self.chunks@[k2];
                    match ch2.spec_uniform_index() {
                        Some(t) => t < 289 && self.slots.slots()[t as int] == Some(
                            (ch2.spec_chunk_x(), ch2.spec_chunk_z()),
                        ) && ch2.spec_uniform_offset() == (t as int) * (self.element_stride as int),
                        None => true,
                    }
                } by {
                    if k2 != k {
                        let ch2 = self.chunks@[k2];
                        if let Some(t) = ch2.spec_uniform_index() {
                            assert(old(self).slots.slots()[t as int] == Some(
                                (ch2.spec_chunk_x(), ch2.spec_chunk_z()),
                            ));
                            assert(t != idx);
                        }
                    }
                }
            }
        } else {
            let ch = Chunk::new(chunk_x, chunk_z, u32::MAX, None);
            self.chunks.insert(k, ch);
            self.coords.push(k);
            proof {
                lemma_coords_push(old(self).coords@, k);
                lemma_vc_insert_outside(
                    old(self).chunks@.dom(),
                    self.cam_cx as int,
                    self.cam_cz as int,
                    chunk_x as int,
                    chunk_z as int,
                    289,
                );
                assert(self.chunks@.dom() =~= old(self).chunks@.dom().insert(k));
            }
        }
    }

    /// Writes one voxel at a world position, creating the owning chunk on
    /// demand; every other position keeps its material.
    pub fn set_block(&mut self, x: i32, y: i32, z: i32, block: Block)
        requires
            old(self).wf(),
            0 <= y < 128,
        ensures
            final(self).wf(),
            forall|wx: int, wy: int, wz: int|
                i32::MIN <= wx <= i32::MAX && 0 <= wy < 128 && i32::MIN <= wz <= i32::MAX
                    ==> #[trigger] final(self).spec_block_at(wx, wy, wz) == (if wx == x && wy == y
                    && wz == z {
                    block
                } else {
                    old(self).spec_block_at(wx, wy, wz)
                }),
            final(self).spec_contains(
                spec_chunk_coord(x as int),
                spec_chunk_coord(z as int),
            ),
            final(self).spec_chunk_at(
                spec_chunk_coord(x as int),
                spec_chunk_coord(z as int),
            ).spec_dirty(),
            forall|cx: int, cz: int|
                i32::MIN <= cx <= i32::MAX && i32::MIN <= cz <= i32::MAX ==> (
                #[trigger] final(self).spec_contains(cx, cz) <==> (old(self).spec_contains(cx, cz)
                    || (cx == spec_chunk_coord(x as int) && cz == spec_chunk_coord(z as int)))),
            final(self).spec_cam_cx() == old(self).spec_cam_cx(),
            final(self).spec_cam_cz() == old(self).spec_cam_cz(),
            final(self).spec_stride() == old(self).spec_stride(),
            final(self).spec_position_initialized() == old(self).spec_position_initialized(),
    {
        let (ccx, ccz) = to_chunk_pos(x, z);
        proof {
            lemma_chunk_coord_range(x as int);
            lemma_chunk_coord_range(z as int);
        }
        self.get_or_init_chunk(ccx, ccz);
        let k = chunk_key(ccx, ccz);
        let ghost mid = *self;
        match self.chunks.remove(&k) {
            Some(mut ch) => {
                let (rx, rz) = world_to_chunk_relative(x, z);
                proof {
                    lemma_coord_decompose(x as int);
                    lemma_coord_decompose(z as int);
                }
                ch.set_block(rx as usize, y as usize, rz as usize, block);
                self.chunks.insert(k, ch);
                proof {
                    assert(self.chunks@.dom() =~= mid.chunks@.dom());
                    lemma_vc_congruence(
                        self.chunks@.dom(),
                        mid.chunks@.dom(),
                        self.cam_cx as int,
                        self.cam_cz as int,
                        289,
                    );
                    assert forall|wx: int, wy: int, wz: int|
                        i32::MIN <= wx <= i32::MAX && 0 <= wy < 128 && i32::MIN <= wz
                            <= i32::MAX implies #[trigger] self.spec_block_at(wx, wy, wz) == (if wx
                        == x && wy == y && wz == z {
                        block
                    } else {
                        old(self).spec_block_at(wx, wy, wz)
                    }) by {
                        lemma_coord_decompose(wx);
                        lemma_coord_decompose(wz);
                        lemma_coord_decompose(x as int);
                        lemma_coord_decompose(z as int);
                        let wcx = spec_chunk_coord(wx);
                        let wcz = spec_chunk_coord(wz);
                        let widx = block_index(spec_chunk_relative(wx), wy, spec_chunk_relative(wz));
                        let tidx = block_index(rx as int, y as int, rz as int);
                        lemma_chunk_coord_range(wx);
                        lemma_chunk_coord_range(wz);
                        lemma_block_index_bounds(spec_chunk_relative(wx), wy, spec_chunk_relative(wz));
                        lemma_block_index_bounds(rx as int, y as int, rz as int);
                        let kw = key_at(wcx, wcz);
                        if kw == key_at(ccx as int, ccz as int) {
                            lemma_key_at_injective(wcx, wcz, ccx as int, ccz as int);
                            assert(wcx == ccx as int && wcz == ccz as int);
                            assert(self.spec_contains(wcx, wcz));
                            assert(mid.spec_chunk_at(ccx as int, ccz as int).wf());
                            assert(self.spec_chunk_at(wcx, wcz).spec_blocks() == mid.spec_chunk_at(
                                ccx as int,
                                ccz as int,
                            ).spec_blocks().update(tidx, block));
                            if wx == x && wy == y && wz == z {
                                assert(spec_chunk_relative(wx) == rx as int);
                                assert(spec_chunk_relative(wz) == rz as int);
                                assert(widx == tidx);
                            } else {
                                if widx == tidx {
                                    lemma_block_index_injective(
                                        spec_chunk_relative(wx),
                                        wy,
                                        spec_chunk_relative(wz),
                                        rx as int,
                                        y as int,
                                        rz as int,
                                    );
                                    assert(wx == 16 * wcx + spec_chunk_relative(wx));
                                    assert(x as int == 16 * (ccx as int) + rx as int);
                                    assert(false);
                                }
                                assert(self.spec_block_at(wx, wy, wz) == mid.spec_chunk_at(
                                    ccx as int,
                                    ccz as int,
                                ).spec_blocks()[widx]);
                                if old(self).spec_contains(ccx as int, ccz as int) {
                                    assert(mid == *old(self));
                                } else {
                                    assert(mid.spec_chunk_at(ccx as int, ccz as int).spec_blocks()
                                        == Seq::new(32768nat, |i: int| Block::Air));
                                    assert(mid.spec_chunk_at(ccx as int, ccz as int).spec_blocks()[
                                        widx
                                    ] == Block::Air);
                                    assert(!old(self).spec_contains(wcx, wcz));
                                    assert(old(self).spec_block_at(wx, wy, wz) == Block::Air);
                                }
                            }
                        } else {
                            assert(self.spec_chunks().contains_key(kw)
                                == mid.spec_chunks().contains_key(kw));
                            if mid.spec_chunks().contains_key(kw) {
                                assert(self.spec_chunks()[kw] == mid.spec_chunks()[kw]);
                            }
                            if old(self).spec_contains(ccx as int, ccz as int) {
                                assert(mid == *old(self));
                            } else {
                                assert(mid.spec_chunks() == old(self).spec_chunks().insert(
                                    spec_key(ccx, ccz),
                                    mid.spec_chunk_at(ccx as int, ccz as int),
                                ));
                            }
                        }
                    }
                    assert forall|cx: int, cz: int|
                        i32::MIN <= cx <= i32::MAX && i32::MIN <= cz <= i32::MAX implies (
                    #[trigger] self.spec_contains(cx, cz) <==> (old(self).spec_contains(cx, cz) || (
                    cx == spec_chunk_coord(x as int) && cz == spec_chunk_coord(z as int)))) by {
                        if key_at(cx, cz) == key_at(ccx as int, ccz as int) {
                            lemma_key_at_injective(cx, cz, ccx as int, ccz as int);
                        }
                    }
                }
            },
            None => {
                proof {
                    assert(false);
                }
            },
        }
    }
}

/// Dropping one entry of a duplicate-free list keeps it duplicate-free and
/// shrinks its set by exactly that entry.
proof fn lemma_coords_remove(s: Seq<u64>, j: int)
    requires
        s.no_duplicates(),
        0 <= j < s.len(),
    ensures
        s.remove(j).no_duplicates(),
        s.remove(j).to_set() == s.to_set().remove(s[j]),
{
    broadcast use vstd::seq_lib::group_seq_properties;

    let r = s.remove(j);
    assert forall|a: int, b: int| 0 <= a < b < r.len() implies r[a] != r[b] by {
        let a2 = if a < j {
            a
        } else {
            a + 1
        };
        let b2 = if b < j {
            b
        } else {
            b + 1
        };
        assert(r[a] == s[a2] && r[b] == s[b2]);
    }
    assert(r.to_set() =~= s.to_set().remove(s[j])) by {
        assert forall|x: u64| r.to_set().contains(x) <==> (s.to_set().contains(x) && x != s[
            j
        ]) by {
            if r.contains(x) {
                let i = choose|i: int| 0 <= i < r.len() && r[i] == x;
                let i2 = if i < j {
                    i
                } else {
                    i + 1
                };
                assert(s[i2] == x);
                assert(x != s[j]);
            } else if s.contains(x) && x != s[j] {
                let i = choose|i: int| 0 <= i < s.len() && s[i] == x;
                let i2 = if i < j {
                    i
                } else {
                    i - 1
                };
                assert(r[i2] == x);
            }
        }
    }
}

/// The block grid a run of single-voxel writes builds up, later writes to
/// the same voxel winning.
pub open spec fn apply_block_writes(
    blocks: Seq<Block>,
    positions: Seq<(u8, u8, u8)>,
    types: Seq<u8>,
    n: int,
) -> Seq<Block>
    decreases n,
{
    if n <= 0 {
        blocks
    } else {
        apply_block_writes(blocks, positions, types, n - 1).update(
            block_index(
                positions[n - 1].0 as int,
                positions[n - 1].1 as int,
                positions[n - 1].2 as int,
            ),
            crate::packets::block_or_stone(types[n - 1]),
        )
    }
}

impl World {
    /// The chunk at the given chunk coordinates, if one exists.
    pub fn chunk_at(&self, x: i32, z: i32) -> (r: Option<&Chunk>)
        ensures
            match r {
                Some(ch) => self.spec_contains(x as int, z as int) && *ch == self.spec_chunk_at(
                    x as int,
                    z as int,
                ),
                None => !self.spec_contains(x as int, z as int),
            },
    {
        let k = chunk_key(x, z);
        self.chunks.get(&k)
    }

    /// Handles a chunk init/uninit packet. Initialisation itself is a no-op:
    /// chunks are created lazily. Un-initialisation drops the chunk and
    /// frees its render slot, making both the coordinate and the slot index
    /// eligible for a fresh assignment later.
    pub fn handle_init_chunk(&mut self, packet: &InitChunk)
        requires
            old(self).wf(),
        ensures
            final(self).wf(),
            packet.init ==> *final(self) == *old(self),
            !packet.init ==> {
                &&& final(self).spec_chunks() == old(self).spec_chunks().remove(
                    spec_key(packet.chunk_x, packet.chunk_z),
                )
                &&& !final(self).spec_contains(packet.chunk_x as int, packet.chunk_z as int)
                &&& forall|i: int|
                    0 <= i < 289 ==> final(self).spec_slots()[i] != Some(
                        (packet.chunk_x, packet.chunk_z),
                    )
            },
            final(self).spec_cam_cx() == old(self).spec_cam_cx(),
            final(self).spec_cam_cz() == old(self).spec_cam_cz(),
            final(self).spec_stride() == old(self).spec_stride(),
            final(self).spec_position_initialized() == old(self).spec_position_initialized(),
    {
        if packet.init {
            return ;
        }
        let k = chunk_key(packet.chunk_x, packet.chunk_z);
        match self.chunks.remove(&k) {
            Some(ch) => {
                proof {
                    assert(old(self).chunks@.contains_key(k));
                    assert(ch == old(self).chunks@[k]);
                    assert(ch.spec_chunk_x() == packet.chunk_x && ch.spec_chunk_z()
                        == packet.chunk_z) by {
                        lemma_key_injective(
                            ch.spec_chunk_x(),
                            ch.spec_chunk_z(),
                            packet.chunk_x,
                            packet.chunk_z,
                        );
                    }
                }
                match ch.slot_index() {
                    Some(i) => {
                        self.slots.remove(i);
                        proof {
                            lemma_vc_remove_window(
                                old(self).chunks@.dom(),
                                self.cam_cx as int,
                                self.cam_cz as int,
                                packet.chunk_x as int,
                                packet.chunk_z as int,
                                289,
                            );
                            lemma_cell_of_window(
                                self.cam_cx as int,
                                self.cam_cz as int,
                                packet.chunk_x as int,
                                packet.chunk_z as int,
                            );
                        }
                    },
                    None => {
                        proof {
                            lemma_vc_insert_outside(
                                self.chunks@.dom(),
                                self.cam_cx as int,
                                self.cam_cz as int,
                                packet.chunk_x as int,
                                packet.chunk_z as int,
                                289,
                            );
                            assert(self.chunks@.dom() =~= old(self).chunks@.dom().remove(k));
                        }
                    },
                }
                // Drop the key from the coordinate list as well.
                let n = self.coords.len();
                let mut j: usize = 0;
                while j < n
                    invariant
                        old(self).wf(),
                        j <= n,
                        n == self.coords@.len(),
                        self.coords == old(self).coords,
                        k == spec_key(packet.chunk_x, packet.chunk_z),
                        !packet.init,
                        old(self).spec_chunks().contains_key(k),
                        self.chunks@ == old(self).spec_chunks().remove(k),
                        self.cam_cx == old(self).cam_cx,
                        self.cam_cz == old(self).cam_cz,
                        self.element_stride == old(self).element_stride,
                        self.position_initialized == old(self).position_initialized,
                        self.slots.wf(),
                        self.slots.spec_capacity() == 289,
                        match old(self).spec_chunks()[k].spec_uniform_index() {
                            Some(i) => self.slots.slots() == old(self).slots.slots().update(
                                i as int,
                                None,
                            ) && self.slots.spec_len() == old(self).slots.spec_len() - 1,
                            None => self.slots == old(self).slots,
                        },
                        forall|t: int| 0 <= t < j ==> self.coords@[t] != k,
                    decreases n - j,
                {
                    if self.coords[j] == k {
                        proof {
                            lemma_coords_remove(self.coords@, j as int);
                        }
                        self.coords.remove(j);
                        proof {
                            re_establish_after_remove(old(self), self, packet.chunk_x, packet.chunk_z, k);
                        }
                        return ;
                    }
                    j = j + 1;
                }
                proof {
                    assert(old(self).coords@.to_set().contains(k)) by {
                        assert(old(self).chunks@.dom().contains(k));
                    }
                    assert(old(self).coords@.contains(k));
                    let t = choose|t: int|
                        0 <= t < old(self).coords@.len() && old(self).coords@[t] == k;
                    assert(false);
                }
            },
            None => {
                proof {
                    assert(!old(self).chunks@.dom().contains(k));
                    assert(self.chunks@ =~= old(self).chunks@.remove(k));
                    assert(self.chunks@ == old(self).chunks@);
                    assert forall|i: int| 0 <= i < 289 implies self.slots.slots()[i] != Some(
                        (packet.chunk_x, packet.chunk_z),
                    ) by {
                        if self.slots.slots()[i] == Some((packet.chunk_x, packet.chunk_z)) {
                            assert(old(self).chunks@.contains_key(k));
                        }
                    }
                }
            },
        }
    }
}

/// Everything `handle_init_chunk` must put back together once the chunk,
/// its slot and its coordinate entry are gone.
proof fn re_establish_after_remove(
    entry: &World,
    now: &World,
    cx: i32,
    cz: i32,
    k: u64,
)
    requires
        entry.wf(),
        k == spec_key(cx, cz),
        entry.spec_chunks().contains_key(k),
        now.chunks@ == entry.spec_chunks().remove(k),
        now.cam_cx == entry.cam_cx,
        now.cam_cz == entry.cam_cz,
        now.element_stride == entry.element_stride,
        now.position_initialized == entry.position_initialized,
        now.coords@.to_set() == entry.coords@.to_set().remove(k),
        now.coords@.no_duplicates(),
        now.slots.wf(),
        now.slots.spec_capacity() == 289,
        match entry.spec_chunks()[k].spec_uniform_index() {
            Some(i) => now.slots.slots() == entry.slots.slots().update(i as int, None)
                && now.slots.spec_len() == entry.slots.spec_len() - 1,
            None => now.slots == entry.slots,
        },
    ensures
        now.wf(),
        forall|i: int| 0 <= i < 289 ==> now.slots.slots()[i] != Some((cx, cz)),
{
    let ch = entry.spec_chunks()[k];
    assert(ch.spec_chunk_x() == cx && ch.spec_chunk_z() == cz) by {
        lemma_key_injective(ch.spec_chunk_x(), ch.spec_chunk_z(), cx, cz);
    }
    assert(now.chunks@.dom() =~= entry.chunks@.dom().remove(k));
    match ch.spec_uniform_index() {
        Some(i) => {
            lemma_vc_remove_window(
                entry.chunks@.dom(),
                entry.cam_cx as int,
                entry.cam_cz as int,
                cx as int,
                cz as int,
                289,
            );
            lemma_cell_of_window(entry.cam_cx as int, entry.cam_cz as int, cx as int, cz as int);
        },
        None => {
            lemma_vc_insert_outside(
                now.chunks@.dom(),
                entry.cam_cx as int,
                entry.cam_cz as int,
                cx as int,
                cz as int,
                289,
            );
            assert(now.chunks@.dom().insert(k) =~= entry.chunks@.dom());
            assert(visible_count(entry.chunks@.dom(), entry.cam_cx as int, entry.cam_cz as int, 289)
                == visible_count(now.chunks@.dom(), entry.cam_cx as int, entry.cam_cz as int, 289));
        },
    }
    assert forall|i: int| 0 <= i < 289 implies now.slots.slots()[i] != Some((cx, cz)) by {
        if now.slots.slots()[i] == Some((cx, cz)) {
            assert(entry.slots.slots()[i] == Some((cx, cz)));
            assert(entry.chunks@[spec_key(cx, cz)].spec_uniform_index() == Some(i as usize));
        }
    }
}

impl World {
    /// Applies a single-voxel mutation packet.
    pub fn handle_set_block(&mut self, packet: &SetBlock)
        requires
            old(self).wf(),
            packet.y < 128,
        ensures
            final(self).wf(),
            forall|wx: int, wy: int, wz: int|
                i32::MIN <= wx <= i32::MAX && 0 <= wy < 128 && i32::MIN <= wz <= i32::MAX
                    ==> #[trigger] final(self).spec_block_at(wx, wy, wz) == (if wx == packet.x && wy
                    == packet.y as int && wz == packet.z {
                    packet.block
                } else {
                    old(self).spec_block_at(wx, wy, wz)
                }),
            final(self).spec_cam_cx() == old(self).spec_cam_cx(),
            final(self).spec_cam_cz() == old(self).spec_cam_cz(),
            final(self).spec_stride() == old(self).spec_stride(),
            final(self).spec_position_initialized() == old(self).spec_position_initialized(),
    {
        self.set_block(packet.x, packet.y as i32, packet.z, packet.block);
    }

    /// Applies a multi-voxel mutation packet: every listed chunk-relative
    /// position of one chunk is written in order, later writes winning.
    pub fn handle_set_blocks(&mut self, packet: &SetBlocks)
        requires
            old(self).wf(),
            packet.types@.len() == packet.positions@.len(),
            packet.data@.len() == packet.positions@.len(),
            forall|i: int|
                0 <= i < packet.positions@.len() ==> (#[trigger] packet.positions@[i]).0 < 16
                    && packet.positions@[i].1 < 128 && packet.positions@[i].2 < 16,
        ensures
            final(self).wf(),
            final(self).spec_contains(packet.chunk_x as int, packet.chunk_z as int),
            final(self).spec_chunk_at(packet.chunk_x as int, packet.chunk_z as int).spec_blocks()
                == apply_block_writes(
                (if old(self).spec_contains(packet.chunk_x as int, packet.chunk_z as int) {
                    old(self).spec_chunk_at(
                        packet.chunk_x as int,
                        packet.chunk_z as int,
                    ).spec_blocks()
                } else {
                    Seq::new(32768nat, |i: int| Block::Air)
                }),
                packet.positions@,
                packet.types@,
                packet.positions@.len() as int,
            ),
            forall|cx: int, cz: int|
                i32::MIN <= cx <= i32::MAX && i32::MIN <= cz <= i32::MAX && !(cx
                    == packet.chunk_x as int && cz == packet.chunk_z as int) ==> (
                #[trigger] final(self).spec_contains(cx, cz) == old(self).spec_contains(cx, cz) && (
                final(self).spec_contains(cx, cz) ==> final(self).spec_chunk_at(cx, cz)
                    == old(self).spec_chunk_at(cx, cz))),
            final(self).spec_cam_cx() == old(self).spec_cam_cx(),
            final(self).spec_cam_cz() == old(self).spec_cam_cz(),
            final(self).spec_stride() == old(self).spec_stride(),
            final(self).spec_position_initialized() == old(self).spec_position_initialized(),
    {
        self.get_or_init_chunk(packet.chunk_x, packet.chunk_z);
        let k = chunk_key(packet.chunk_x, packet.chunk_z);
        let ghost mid = *self;
        match self.chunks.remove(&k) {
            Some(mut ch) => {
                let ghost base = ch.spec_blocks();
                let n = packet.positions.len();
                let mut i: usize = 0;
                while i < n
                    invariant
                        i <= n,
                        n == packet.positions@.len(),
                        packet.types@.len() == n,
                        packet.data@.len() == n,
                        forall|t: int|
                            0 <= t < n ==> (#[trigger] packet.positions@[t]).0 < 16
                                && packet.positions@[t].1 < 128 && packet.positions@[t].2 < 16,
                        ch.wf(),
                        ch.spec_blocks() == apply_block_writes(
                            base,
                            packet.positions@,
                            packet.types@,
                            i as int,
                        ),
                        ch.spec_mesh() == mid.spec_chunk_at(
                            packet.chunk_x as int,
                            packet.chunk_z as int,
                        ).spec_mesh(),
                        ch.spec_uniform_offset() == mid.spec_chunk_at(
                            packet.chunk_x as int,
                            packet.chunk_z as int,
                        ).spec_uniform_offset(),
                        ch.spec_uniform_index() == mid.spec_chunk_at(
                            packet.chunk_x as int,
                            packet.chunk_z as int,
                        ).spec_uniform_index(),
                        ch.spec_chunk_x() == mid.spec_chunk_at(
                            packet.chunk_x as int,
                            packet.chunk_z as int,
                        ).spec_chunk_x(),
                        ch.spec_chunk_z() == mid.spec_chunk_at(
                            packet.chunk_x as int,
                            packet.chunk_z as int,
                        ).spec_chunk_z(),
                    decreases n - i,
                {
                    let (px, py, pz) = packet.positions[i];
                    let b = match Block::read(packet.types[i], packet.data[i]) {
                        Some(b) => b,
                        None => Block::Stone,
                    };
                    ch.set_block(px as usize, py as usize, pz as usize, b);
                    i = i + 1;
                }
                self.chunks.insert(k, ch);
                proof {
                    assert(self.chunks@.dom() =~= mid.chunks@.dom());
                    lemma_vc_congruence(
                        self.chunks@.dom(),
                        mid.chunks@.dom(),
                        self.cam_cx as int,
                        self.cam_cz as int,
                        289,
                    );
                    assert forall|cx: int, cz: int|
                        i32::MIN <= cx <= i32::MAX && i32::MIN <= cz <= i32::MAX && !(cx
                            == packet.chunk_x as int && cz == packet.chunk_z as int) implies (
                    #[trigger] self.spec_contains(cx, cz) == old(self).spec_contains(cx, cz) && (
                    self.spec_contains(cx, cz) ==> self.spec_chunk_at(cx, cz) == old(
                        self,
                    ).spec_chunk_at(cx, cz))) by {
                        if key_at(cx, cz) == key_at(packet.chunk_x as int, packet.chunk_z as int) {
                            lemma_key_at_injective(
                                cx,
                                cz,
                                packet.chunk_x as int,
                                packet.chunk_z as int,
                            );
                        }
                    }
                }
            },
            None => {
                proof {
                    assert(false);
                }
            },
        }
    }
}

// ---------------------------------------------------------------------------
// The slot invariant, stated on its own. Every mutator above preserves
// `wf`, so these hold at every point in time, whatever sequence of camera
// moves and packets has been applied.
// ---------------------------------------------------------------------------

/// The occupied slots never exceed the fixed window capacity.
pub proof fn lemma_slot_count_bounded(w: &World)
    requires
        w.wf(),
    ensures
        0 <= w.spec_slot_len() <= 289,
        w.spec_slots().len() == 289,
{
    w.lemma_slot_len_bound();
}

/// No coordinate occupies two slots: occupied slot indices are unique per
/// chunk.
pub proof fn lemma_slot_uniqueness(w: &World, i: int, j: int)
    requires
        w.wf(),
        0 <= i < 289,
        0 <= j < 289,
        w.spec_slots()[i] is Some,
        w.spec_slots()[i] == w.spec_slots()[j],
    ensures
        i == j,
{
    w.lemma_slot_unique(i, j);
}

/// The visible-window invariant: a chunk coordinate present in the map holds
/// a slot exactly when it lies within Chebyshev distance 8 of the camera
/// chunk, and a coordinate outside the map holds none.
pub proof fn lemma_visible_window_invariant(w: &World, x: int, z: int)
    requires
        w.wf(),
        i32::MIN <= x <= i32::MAX,
        i32::MIN <= z <= i32::MAX,
    ensures
        w.spec_contains(x, z) ==> ((w.spec_slot_of(x, z) is Some) <==> in_window(
            w.spec_cam_cx(),
            w.spec_cam_cz(),
            x,
            z,
        )),
        w.spec_slot_of(x, z) matches Some(i) ==> i < 289 && w.spec_slots()[i as int] == Some(
            (x as i32, z as i32),
        ),
{
    w.lemma_window(x, z);
}

impl World {
    proof fn lemma_slot_len_bound(&self)
        requires
            self.wf(),
        ensures
            0 <= self.spec_slot_len() <= 289,
            self.spec_slots().len() == 289,
    {
        crate::slots::lemma_occ_count_bounds(self.slots.slots(), 289);
    }

    proof fn lemma_slot_unique(&self, i: int, j: int)
        requires
            self.wf(),
            0 <= i < 289,
            0 <= j < 289,
            self.spec_slots()[i] is Some,
            self.spec_slots()[i] == self.spec_slots()[j],
        ensures
            i == j,
    {
        let c = self.slots.slots()[i]->0;
        assert(self.chunks@[spec_key(c.0, c.1)].spec_uniform_index() == Some(i as usize));
        assert(self.chunks@[spec_key(c.0, c.1)].spec_uniform_index() == Some(j as usize));
    }

    proof fn lemma_window(&self, x: int, z: int)
        requires
            self.wf(),
            i32::MIN <= x <= i32::MAX,
            i32::MIN <= z <= i32::MAX,
        ensures
            self.spec_contains(x, z) ==> ((self.spec_slot_of(x, z) is Some) <==> in_window(
                self.spec_cam_cx(),
                self.spec_cam_cz(),
                x,
                z,
            )),
            self.spec_slot_of(x, z) matches Some(i) ==> i < 289 && self.spec_slots()[i as int]
                == Some((x as i32, z as i32)),
    {
        if self.spec_contains(x, z) {
            let ch = self.spec_chunk_at(x, z);
            assert(spec_key(ch.spec_chunk_x(), ch.spec_chunk_z()) == key_at(x, z));
            lemma_key_at_injective(ch.spec_chunk_x() as int, ch.spec_chunk_z() as int, x, z);
        }
    }
}

/// Whether a world position lies inside a bulk block region.
pub open spec fn region_contains(p: SetContiguousBlocks, wx: int, wy: int, wz: int) -> bool {
    &&& p.x <= wx < p.x + p.x_size
    &&& p.y <= wy < p.y + p.y_size
    &&& p.z <= wz < p.z + p.z_size
}

/// The index into a bulk region's flat block array of a world position:
/// the region is walked `x` first, then `z`, then `y`.
pub open spec fn region_index(p: SetContiguousBlocks, wx: int, wy: int, wz: int) -> int {
    ((wx - p.x) * (p.z_size as int) + (wz - p.z)) * (p.y_size as int) + (wy - p.y)
}

/// Two in-range triples with the same flat index are equal.
proof fn lemma_flat_injective(
    zs: int,
    ys: int,
    a1: int,
    b1: int,
    c1: int,
    a2: int,
    b2: int,
    c2: int,
)
    requires
        0 < zs,
        0 < ys,
        0 <= a1,
        0 <= a2,
        0 <= b1 < zs,
        0 <= b2 < zs,
        0 <= c1 < ys,
        0 <= c2 < ys,
        (a1 * zs + b1) * ys + c1 == (a2 * zs + b2) * ys + c2,
    ensures
        a1 == a2 && b1 == b2 && c1 == c2,
{
    let n = (a1 * zs + b1) * ys + c1;
    assert(0 <= a1 * zs + b1) by (nonlinear_arith)
        requires
            0 <= a1 && 0 < zs && 0 <= b1,
    ;
    assert(0 <= a2 * zs + b2) by (nonlinear_arith)
        requires
            0 <= a2 && 0 < zs && 0 <= b2,
    ;
    vstd::arithmetic::div_mod::lemma_fundamental_div_mod_converse(n, ys, a1 * zs + b1, c1);
    vstd::arithmetic::div_mod::lemma_fundamental_div_mod_converse(n, ys, a2 * zs + b2, c2);
    vstd::arithmetic::div_mod::lemma_fundamental_div_mod_converse(a1 * zs + b1, zs, a1, b1);
    vstd::arithmetic::div_mod::lemma_fundamental_div_mod_converse(a2 * zs + b2, zs, a2, b2);
}

/// A flat index stays below the region volume.
proof fn lemma_flat_bounds(xs: int, zs: int, ys: int, a: int, b: int, c: int)
    requires
        0 <= a < xs,
        0 <= b < zs,
        0 <= c < ys,
    ensures
        0 <= (a * zs + b) * ys + c < xs * ys * zs,
{
    assert(0 <= (a * zs + b) * ys + c < xs * ys * zs) by (nonlinear_arith)
        requires
            0 <= a < xs && 0 <= b < zs && 0 <= c < ys,
    ;
}

impl World {
    /// Applies a rectangular bulk block region. The fast path writes
    /// directly into the single chunk that holds the whole region; when the
    /// region's corners fall in different chunks, a per-voxel fallback
    /// resolves the owning chunk for every write. Both paths update exactly
    /// the voxels of the region, in the same way.
    pub fn handle_set_contiguous_blocks(&mut self, packet: &SetContiguousBlocks)
        requires
            old(self).wf(),
            0 < packet.x_size,
            0 < packet.y_size,
            0 < packet.z_size,
            0 <= packet.y,
            packet.y + packet.y_size <= 128,
            packet.x + packet.x_size <= 0x80000000,
            packet.z + packet.z_size <= 0x80000000,
            packet.blocks@.len() == (packet.x_size as int) * (packet.y_size as int) * (
            packet.z_size as int),
        ensures
            final(self).wf(),
            forall|wx: int, wy: int, wz: int|
                i32::MIN <= wx <= i32::MAX && 0 <= wy < 128 && i32::MIN <= wz <= i32::MAX
                    ==> #[trigger] final(self).spec_block_at(wx, wy, wz) == (if region_contains(
                    *packet,
                    wx,
                    wy,
                    wz,
                ) {
                    packet.blocks@[region_index(*packet, wx, wy, wz)]
                } else {
                    old(self).spec_block_at(wx, wy, wz)
                }),
            final(self).spec_cam_cx() == old(self).spec_cam_cx(),
            final(self).spec_cam_cz() == old(self).spec_cam_cz(),
            final(self).spec_stride() == old(self).spec_stride(),
            final(self).spec_position_initialized() == old(self).spec_position_initialized(),
    {
        let xs = packet.x_size;
        let ys = packet.y_size;
        let zs = packet.z_size;
        let start = to_chunk_pos(packet.x, packet.z);
        let end = to_chunk_pos(packet.x + (xs - 1), packet.z + (zs - 1));
        let total: usize = packet.blocks.len();
        if start.0 != end.0 || start.1 != end.1 {
            // Fallback: the region crosses a chunk boundary, so resolve the
            // owning chunk for every voxel.
            let mut index: usize = 0;
            let mut dx: i32 = 0;
            while dx < xs
                invariant
                    old(self).wf(),
                    total == packet.blocks@.len(),
                    xs == packet.x_size && ys == packet.y_size && zs == packet.z_size,
                    0 <= dx <= xs,
                    self.slow_scan_inv(old(self), packet, index as int),
                    index == (dx as int) * (zs as int) * (ys as int),
                decreases xs - dx,
            {
                let mut dz: i32 = 0;
                while dz < zs
                    invariant
                        old(self).wf(),
                        total == packet.blocks@.len(),
                        xs == packet.x_size && ys == packet.y_size && zs == packet.z_size,
                        0 <= dx < xs,
                        0 <= dz <= zs,
                        self.slow_scan_inv(old(self), packet, index as int),
                        index == ((dx as int) * (zs as int) + dz as int) * (ys as int),
                    decreases zs - dz,
                {
                    let mut dy: i32 = 0;
                    while dy < ys
                        invariant
                            old(self).wf(),
                            total == packet.blocks@.len(),
                            xs == packet.x_size && ys == packet.y_size && zs == packet.z_size,
                            0 <= dx < xs,
                            0 <= dz < zs,
                            0 <= dy <= ys,
                            self.slow_scan_inv(old(self), packet, index as int),
                            index == ((dx as int) * (zs as int) + dz as int) * (ys as int)
                                + dy as int,
                        decreases ys - dy,
                    {
                        proof {
                            lemma_flat_bounds(
                                xs as int,
                                zs as int,
                                ys as int,
                                dx as int,
                                dz as int,
                                dy as int,
                            );
                            assert((xs as int) * (ys as int) * (zs as int) == (xs as int) * (
                            zs as int) * (ys as int)) by (nonlinear_arith);
                        }
                        proof {
                            lemma_flat_bounds(
                                xs as int,
                                zs as int,
                                ys as int,
                                dx as int,
                                dz as int,
                                dy as int,
                            );
                        }
                        let ghost before = *self;
                        self.set_block(
                            packet.x + dx,
                            packet.y + dy,
                            packet.z + dz,
                            packet.blocks[index],
                        );
                        proof {
                            self.lemma_slow_step(
                                old(self),
                                &before,
                                packet,
                                dx as int,
                                dy as int,
                                dz as int,
                                index as int,
                            );
                        }
                        index = index + 1;
                        dy = dy + 1;
                    }
                    proof {
                        assert(((dx as int) * (zs as int) + dz as int) * (ys as int) + ys as int
                            == ((dx as int) * (zs as int) + dz as int + 1) * (ys as int))
                            by (nonlinear_arith);
                    }
                    dz = dz + 1;
                }
                proof {
                    assert(((dx as int) * (zs as int) + zs as int) * (ys as int) == ((dx as int + 1)
                        * (zs as int)) * (ys as int)) by (nonlinear_arith);
                    assert(((dx as int + 1) * (zs as int)) * (ys as int) == (dx as int + 1) * (
                    zs as int) * (ys as int)) by (nonlinear_arith);
                    assert((dx as int) * (zs as int) * (ys as int) == ((dx as int) * (zs as int))
                        * (ys as int)) by (nonlinear_arith);
                }
                dx = dx + 1;
            }
            proof {
                assert forall|wx: int, wy: int, wz: int|
                    i32::MIN <= wx <= i32::MAX && 0 <= wy < 128 && i32::MIN <= wz
                        <= i32::MAX implies #[trigger] self.spec_block_at(wx, wy, wz) == (
                if region_contains(*packet, wx, wy, wz) {
                    packet.blocks@[region_index(*packet, wx, wy, wz)]
                } else {
                    old(self).spec_block_at(wx, wy, wz)
                }) by {
                    if region_contains(*packet, wx, wy, wz) {
                        lemma_flat_bounds(
                            xs as int,
                            zs as int,
                            ys as int,
                            wx - packet.x,
                            wz - packet.z,
                            wy - packet.y,
                        );
                        assert((xs as int) * (ys as int) * (zs as int) == (xs as int) * (zs as int)
                            * (ys as int)) by (nonlinear_arith);
                    }
                }
            }
        } else {
            // Fast path: the whole region lies inside one chunk.
            self.get_or_init_chunk(start.0, start.1);
            let k = chunk_key(start.0, start.1);
            let ghost mid = *self;
            let off = world_to_chunk_relative(packet.x, packet.z);
            let x_off = off.0;
            let z_off = off.1;
            proof {
                lemma_coord_decompose(packet.x as int);
                lemma_coord_decompose(packet.z as int);
                lemma_coord_decompose(packet.x as int + xs as int - 1);
                lemma_coord_decompose(packet.z as int + zs as int - 1);
                vstd::arithmetic::div_mod::lemma_div_is_ordered(
                    packet.x as int,
                    packet.x as int + xs as int - 1,
                    16,
                );
                vstd::arithmetic::div_mod::lemma_div_is_ordered(
                    packet.z as int,
                    packet.z as int + zs as int - 1,
                    16,
                );
                assert(x_off as int + xs as int - 1 < 16);
                assert(z_off as int + zs as int - 1 < 16);
            }
            match self.chunks.remove(&k) {
                Some(mut ch) => {
                    let ghost base = ch.spec_blocks();
                    let mut index: usize = 0;
                    let mut dx: i32 = 0;
                    while dx < xs
                        invariant
                            xs == packet.x_size && ys == packet.y_size && zs == packet.z_size,
                            total == packet.blocks@.len(),
                            fast_link_inv(&mid, old(self), packet, x_off, z_off, k, start),
                            0 <= dx <= xs,
                            self.fast_scan_inv(&mid, &ch, base, packet, x_off, z_off, index as int),
                            index == (dx as int) * (zs as int) * (ys as int),
                        decreases xs - dx,
                    {
                        let mut dz: i32 = 0;
                        while dz < zs
                            invariant
                                xs == packet.x_size && ys == packet.y_size && zs == packet.z_size,
                                total == packet.blocks@.len(),
                                fast_link_inv(&mid, old(self), packet, x_off, z_off, k, start),
                                0 <= dx < xs,
                                0 <= dz <= zs,
                                self.fast_scan_inv(
                                    &mid,
                                    &ch,
                                    base,
                                    packet,
                                    x_off,
                                    z_off,
                                    index as int,
                                ),
                                index == ((dx as int) * (zs as int) + dz as int) * (ys as int),
                            decreases zs - dz,
                        {
                            let mut dy: i32 = 0;
                            while dy < ys
                                invariant
                                    xs == packet.x_size && ys == packet.y_size && zs
                                        == packet.z_size,
                                    total == packet.blocks@.len(),
                                    fast_link_inv(&mid, old(self), packet, x_off, z_off, k, start),
                                    0 <= dx < xs,
                                    0 <= dz < zs,
                                    0 <= dy <= ys,
                                    self.fast_scan_inv(
                                        &mid,
                                        &ch,
                                        base,
                                        packet,
                                        x_off,
                                        z_off,
                                        index as int,
                                    ),
                                    index == ((dx as int) * (zs as int) + dz as int) * (ys as int)
                                        + dy as int,
                                decreases ys - dy,
                            {
                                proof {
                                    assert((xs as int) * (ys as int) * (zs as int) == (xs as int)
                                        * (zs as int) * (ys as int)) by (nonlinear_arith);
                                }
                                proof {
                                    lemma_flat_bounds(
                                        xs as int,
                                        zs as int,
                                        ys as int,
                                        dx as int,
                                        dz as int,
                                        dy as int,
                                    );
                                }
                                let ghost chb = ch;
                                ch.set_block(
                                    (x_off + dx) as usize,
                                    (packet.y + dy) as usize,
                                    (z_off + dz) as usize,
                                    packet.blocks[index],
                                );
                                proof {
                                    lemma_fast_step(
                                        self,
                                        &mid,
                                        &chb,
                                        &ch,
                                        base,
                                        packet,
                                        x_off,
                                        z_off,
                                        dx as int,
                                        dy as int,
                                        dz as int,
                                        index as int,
                                    );
                                }
                                index = index + 1;
                                dy = dy + 1;
                            }
                            proof {
                                assert(((dx as int) * (zs as int) + dz as int) * (ys as int)
                                    + ys as int == ((dx as int) * (zs as int) + dz as int + 1) * (
                                ys as int)) by (nonlinear_arith);
                            }
                            dz = dz + 1;
                        }
                        proof {
                            assert(((dx as int) * (zs as int) + zs as int) * (ys as int) == (
                            dx as int + 1) * (zs as int) * (ys as int)) by (nonlinear_arith);
                            assert((dx as int) * (zs as int) * (ys as int) == ((dx as int) * (
                            zs as int)) * (ys as int)) by (nonlinear_arith);
                        }
                        dx = dx + 1;
                    }
                    self.chunks.insert(k, ch);
                    proof {
                        lemma_key_injective(
                            ch.spec_chunk_x(),
                            ch.spec_chunk_z(),
                            start.0,
                            start.1,
                        );
                        assert((xs as int) * (ys as int) * (zs as int) == (xs as int) * (zs as int)
                            * (ys as int)) by (nonlinear_arith);
                        self.lemma_fast_finish(old(self), &mid, &ch, base, packet, x_off, z_off);
                    }
                },
                None => {
                    proof {
                        assert(false);
                    }
                },
            }
        }
    }

    /// The fallback path's invariant: the first `n` region voxels in scan
    /// order hold their new material, everything else its old one.
    spec fn slow_scan_inv(&self, entry: &World, p: &SetContiguousBlocks, n: int) -> bool {
        &&& 0 < p.x_size
        &&& 0 < p.y_size
        &&& 0 < p.z_size
        &&& 0 <= p.y
        &&& p.y + p.y_size <= 128
        &&& p.x + p.x_size <= 0x80000000
        &&& p.z + p.z_size <= 0x80000000
        &&& p.blocks@.len() == (p.x_size as int) * (p.y_size as int) * (p.z_size as int)
        &&& self.wf()
        &&& self.spec_cam_cx() == entry.spec_cam_cx()
        &&& self.spec_cam_cz() == entry.spec_cam_cz()
        &&& self.spec_stride() == entry.spec_stride()
        &&& self.spec_position_initialized() == entry.spec_position_initialized()
        &&& forall|wx: int, wy: int, wz: int|
            i32::MIN <= wx <= i32::MAX && 0 <= wy < 128 && i32::MIN <= wz <= i32::MAX
                ==> #[trigger] self.spec_block_at(wx, wy, wz) == (if region_contains(*p, wx, wy, wz)
                && region_index(*p, wx, wy, wz) < n {
                p.blocks@[region_index(*p, wx, wy, wz)]
            } else {
                entry.spec_block_at(wx, wy, wz)
            })
    }

    /// One fallback write extends the scan invariant by one voxel.
    proof fn lemma_slow_step(
        &self,
        entry: &World,
        before: &World,
        p: &SetContiguousBlocks,
        dx: int,
        dy: int,
        dz: int,
        n: int,
    )
        requires
            0 <= dx < p.x_size,
            0 <= dy < p.y_size,
            0 <= dz < p.z_size,
            0 <= p.y,
            p.y + p.y_size <= 128,
            p.x + p.x_size <= 0x80000000,
            p.z + p.z_size <= 0x80000000,
            n == ((dx * (p.z_size as int)) + dz) * (p.y_size as int) + dy,
            before.slow_scan_inv(entry, p, n),
            self.wf(),
            self.spec_cam_cx() == before.spec_cam_cx(),
            self.spec_cam_cz() == before.spec_cam_cz(),
            self.spec_stride() == before.spec_stride(),
            self.spec_position_initialized() == before.spec_position_initialized(),
            forall|wx: int, wy: int, wz: int|
                i32::MIN <= wx <= i32::MAX && 0 <= wy < 128 && i32::MIN <= wz <= i32::MAX
                    ==> #[trigger] self.spec_block_at(wx, wy, wz) == (if wx == p.x + dx && wy == p.y
                    + dy && wz == p.z + dz {
                    p.blocks@[n]
                } else {
                    before.spec_block_at(wx, wy, wz)
                }),
        ensures
            self.slow_scan_inv(entry, p, n + 1),
    {
        assert forall|wx: int, wy: int, wz: int|
            i32::MIN <= wx <= i32::MAX && 0 <= wy < 128 && i32::MIN <= wz
                <= i32::MAX implies #[trigger] self.spec_block_at(wx, wy, wz) == (
        if region_contains(*p, wx, wy, wz) && region_index(*p, wx, wy, wz) < n + 1 {
            p.blocks@[region_index(*p, wx, wy, wz)]
        } else {
            entry.spec_block_at(wx, wy, wz)
        }) by {
            if wx == p.x + dx && wy == p.y + dy && wz == p.z + dz {
                assert(region_index(*p, wx, wy, wz) == n) by (nonlinear_arith)
                    requires
                        wx - p.x == dx && wy - p.y == dy && wz - p.z == dz && n == ((dx * (
                        p.z_size as int)) + dz) * (p.y_size as int) + dy,
                ;
                assert(region_contains(*p, wx, wy, wz));
            } else {
                if region_contains(*p, wx, wy, wz) && region_index(*p, wx, wy, wz) == n {
                    lemma_flat_injective(
                        p.z_size as int,
                        p.y_size as int,
                        wx - p.x,
                        wz - p.z,
                        wy - p.y,
                        dx,
                        dz,
                        dy,
                    );
                }
            }
        }
    }
}

/// What ties the fast path's checked-out chunk back to the world it came
/// from: how `mid` arose from the state at entry, and where the region sits
/// inside its single chunk.
spec fn fast_link_inv(
    mid: &World,
    entry: &World,
    p: &SetContiguousBlocks,
    x_off: i32,
    z_off: i32,
    k: u64,
    start: (i32, i32),
) -> bool {
    &&& entry.wf()
    &&& mid.wf()
    &&& start.0 as int == spec_chunk_coord(p.x as int)
    &&& start.1 as int == spec_chunk_coord(p.z as int)
    &&& k == spec_key(start.0, start.1)
    &&& x_off as int == spec_chunk_relative(p.x as int)
    &&& z_off as int == spec_chunk_relative(p.z as int)
    &&& x_off + p.x_size <= 16
    &&& z_off + p.z_size <= 16
    &&& mid.spec_contains(start.0 as int, start.1 as int)
    &&& (entry.spec_contains(start.0 as int, start.1 as int) ==> *mid == *entry)
    &&& (!entry.spec_contains(start.0 as int, start.1 as int) ==> {
        &&& mid.spec_chunks() == entry.spec_chunks().insert(
            k,
            mid.spec_chunk_at(start.0 as int, start.1 as int),
        )
        &&& mid.spec_chunk_at(start.0 as int, start.1 as int).spec_blocks() == Seq::new(
            32768nat,
            |i: int| Block::Air,
        )
    })
    &&& mid.spec_cam_cx() == entry.spec_cam_cx()
    &&& mid.spec_cam_cz() == entry.spec_cam_cz()
    &&& mid.spec_stride() == entry.spec_stride()
    &&& mid.spec_position_initialized() == entry.spec_position_initialized()
}

/// The fast path's invariant over the removed chunk: the first `n` region
/// voxels in scan order hold their new material inside the chunk grid.
spec fn fast_chunk_inv(
    ch: &Chunk,
    base: Seq<Block>,
    p: &SetContiguousBlocks,
    x_off: i32,
    z_off: i32,
    n: int,
) -> bool {
    &&& ch.wf()
    &&& forall|bx: int, by_: int, bz: int|
        0 <= bx < 16 && 0 <= by_ < 128 && 0 <= bz < 16 ==> ch.spec_blocks()[#[trigger] block_index(
            bx,
            by_,
            bz,
        )] == (if x_off <= bx < x_off + p.x_size && p.y <= by_ < p.y + p.y_size && z_off <= bz
            < z_off + p.z_size && ((bx - x_off) * (p.z_size as int) + (bz - z_off)) * (
        p.y_size as int) + (by_ - p.y) < n {
            p.blocks@[((bx - x_off) * (p.z_size as int) + (bz - z_off)) * (p.y_size as int) + (by_
                - p.y)]
        } else {
            base[block_index(bx, by_, bz)]
        })
}

impl World {
    /// The map state the fast path maintains while its chunk is checked
    /// out: the world without the chunk, the chunk accumulating writes.
    spec fn fast_scan_inv(
        &self,
        mid: &World,
        ch: &Chunk,
        base: Seq<Block>,
        p: &SetContiguousBlocks,
        x_off: i32,
        z_off: i32,
        n: int,
    ) -> bool {
        &&& self.chunks@ == mid.chunks@.remove(
            spec_key(ch.spec_chunk_x(), ch.spec_chunk_z()),
        )
        &&& self.cam_cx == mid.cam_cx
        &&& self.cam_cz == mid.cam_cz
        &&& self.element_stride == mid.element_stride
        &&& self.position_initialized == mid.position_initialized
        &&& self.coords == mid.coords
        &&& self.slots == mid.slots
        &&& fast_chunk_inv(ch, base, p, x_off, z_off, n)
        &&& ch.spec_mesh() is Some == (mid.chunks@[spec_key(ch.spec_chunk_x(), ch.spec_chunk_z())].spec_mesh() is Some)
        &&& ch.spec_uniform_offset() == mid.chunks@[spec_key(
            ch.spec_chunk_x(),
            ch.spec_chunk_z(),
        )].spec_uniform_offset()
        &&& ch.spec_uniform_index() == mid.chunks@[spec_key(
            ch.spec_chunk_x(),
            ch.spec_chunk_z(),
        )].spec_uniform_index()
        &&& ch.spec_chunk_x() == mid.chunks@[spec_key(
            ch.spec_chunk_x(),
            ch.spec_chunk_z(),
        )].spec_chunk_x()
        &&& ch.spec_chunk_z() == mid.chunks@[spec_key(
            ch.spec_chunk_x(),
            ch.spec_chunk_z(),
        )].spec_chunk_z()
        &&& mid.chunks@.contains_key(spec_key(ch.spec_chunk_x(), ch.spec_chunk_z()))
        &&& base == mid.chunks@[spec_key(ch.spec_chunk_x(), ch.spec_chunk_z())].spec_blocks()
        &&& 0 < p.x_size
        &&& 0 < p.y_size
        &&& 0 < p.z_size
        &&& 0 <= p.y
        &&& p.y + p.y_size <= 128
        &&& 0 <= x_off
        &&& x_off + p.x_size <= 16
        &&& 0 <= z_off
        &&& z_off + p.z_size <= 16
        &&& p.blocks@.len() == (p.x_size as int) * (p.y_size as int) * (p.z_size as int)
    }
}

/// One fast-path write extends the chunk scan invariant by one voxel.
proof fn lemma_fast_step(
    now: &World,
    mid: &World,
    chb: &Chunk,
    ch: &Chunk,
    base: Seq<Block>,
    p: &SetContiguousBlocks,
    x_off: i32,
    z_off: i32,
    dx: int,
    dy: int,
    dz: int,
    n: int,
)
    requires
        0 <= dx < p.x_size,
        0 <= dy < p.y_size,
        0 <= dz < p.z_size,
        0 <= p.y,
        p.y + p.y_size <= 128,
        0 <= x_off,
        x_off + p.x_size <= 16,
        0 <= z_off,
        z_off + p.z_size <= 16,
        n == ((dx * (p.z_size as int)) + dz) * (p.y_size as int) + dy,
        now.fast_scan_inv(mid, chb, base, p, x_off, z_off, n),
        ch.wf(),
        ch.spec_blocks() == chb.spec_blocks().update(
            block_index(x_off + dx, p.y + dy, z_off + dz),
            p.blocks@[n],
        ),
        ch.spec_mesh() == chb.spec_mesh(),
        ch.spec_uniform_offset() == chb.spec_uniform_offset(),
        ch.spec_uniform_index() == chb.spec_uniform_index(),
        ch.spec_chunk_x() == chb.spec_chunk_x(),
        ch.spec_chunk_z() == chb.spec_chunk_z(),
    ensures
        now.fast_scan_inv(mid, ch, base, p, x_off, z_off, n + 1),
{
    lemma_block_index_bounds(x_off + dx, p.y + dy, z_off + dz);
    assert forall|bx: int, by_: int, bz: int|
        0 <= bx < 16 && 0 <= by_ < 128 && 0 <= bz < 16 implies ch.spec_blocks()[
    #[trigger] block_index(bx, by_, bz)] == (if x_off <= bx < x_off + p.x_size && p.y <= by_ < p.y
        + p.y_size && z_off <= bz < z_off + p.z_size && ((bx - x_off) * (p.z_size as int) + (bz
        - z_off)) * (p.y_size as int) + (by_ - p.y) < n + 1 {
        p.blocks@[((bx - x_off) * (p.z_size as int) + (bz - z_off)) * (p.y_size as int) + (by_
            - p.y)]
    } else {
        base[block_index(bx, by_, bz)]
    }) by {
        lemma_block_index_bounds(bx, by_, bz);
        if bx == x_off + dx && by_ == p.y + dy && bz == z_off + dz {
            assert(((bx - x_off) * (p.z_size as int) + (bz - z_off)) * (p.y_size as int) + (by_
                - p.y) == n) by (nonlinear_arith)
                requires
                    bx - x_off == dx && by_ - p.y == dy && bz - z_off == dz && n == ((dx * (
                    p.z_size as int)) + dz) * (p.y_size as int) + dy,
            ;
        } else {
            if block_index(bx, by_, bz) == block_index(x_off + dx, p.y + dy, z_off + dz) {
                lemma_block_index_injective(bx, by_, bz, x_off + dx, p.y + dy, z_off + dz);
            }
            if x_off <= bx < x_off + p.x_size && p.y <= by_ < p.y + p.y_size && z_off <= bz < z_off
                + p.z_size && ((bx - x_off) * (p.z_size as int) + (bz - z_off)) * (p.y_size as int)
                + (by_ - p.y) == n {
                lemma_flat_injective(
                    p.z_size as int,
                    p.y_size as int,
                    bx - x_off,
                    bz - z_off,
                    by_ - p.y,
                    dx,
                    dz,
                    dy,
                );
            }
        }
    }
}

impl World {
    /// Reinserting the rewritten chunk yields exactly the region update at
    /// world level, and restores well-formedness.
    proof fn lemma_fast_finish(
        &self,
        entry: &World,
        mid: &World,
        ch: &Chunk,
        base: Seq<Block>,
        p: &SetContiguousBlocks,
        x_off: i32,
        z_off: i32,
    )
        requires
            entry.wf(),
            0 < p.x_size,
            0 < p.y_size,
            0 < p.z_size,
            0 <= p.y,
            p.y + p.y_size <= 128,
            p.x + p.x_size <= 0x80000000,
            p.z + p.z_size <= 0x80000000,
            p.blocks@.len() == (p.x_size as int) * (p.y_size as int) * (p.z_size as int),
            // how `mid` came from `entry`
            mid.wf(),
            mid.spec_contains(spec_chunk_coord(p.x as int), spec_chunk_coord(p.z as int)),
            entry.spec_contains(spec_chunk_coord(p.x as int), spec_chunk_coord(p.z as int))
                ==> *mid == *entry,
            !entry.spec_contains(spec_chunk_coord(p.x as int), spec_chunk_coord(p.z as int)) ==> {
                &&& mid.spec_chunks() == entry.spec_chunks().insert(
                    spec_key(
                        spec_chunk_coord(p.x as int) as i32,
                        spec_chunk_coord(p.z as int) as i32,
                    ),
                    mid.spec_chunk_at(
                        spec_chunk_coord(p.x as int),
                        spec_chunk_coord(p.z as int),
                    ),
                )
                &&& mid.spec_chunk_at(
                    spec_chunk_coord(p.x as int),
                    spec_chunk_coord(p.z as int),
                ).spec_blocks() == Seq::new(32768nat, |i: int| Block::Air)
            },
            mid.spec_cam_cx() == entry.spec_cam_cx(),
            mid.spec_cam_cz() == entry.spec_cam_cz(),
            mid.spec_stride() == entry.spec_stride(),
            mid.spec_position_initialized() == entry.spec_position_initialized(),
            // the chunk's identity and offsets
            ch.spec_chunk_x() as int == spec_chunk_coord(p.x as int),
            ch.spec_chunk_z() as int == spec_chunk_coord(p.z as int),
            x_off as int == spec_chunk_relative(p.x as int),
            z_off as int == spec_chunk_relative(p.z as int),
            x_off + p.x_size <= 16,
            z_off + p.z_size <= 16,
            // the final state: mid with the rewritten chunk back in place
            self.chunks@ == mid.chunks@.remove(
                spec_key(ch.spec_chunk_x(), ch.spec_chunk_z()),
            ).insert(spec_key(ch.spec_chunk_x(), ch.spec_chunk_z()), *ch),
            self.cam_cx == mid.cam_cx,
            self.cam_cz == mid.cam_cz,
            self.element_stride == mid.element_stride,
            self.position_initialized == mid.position_initialized,
            self.coords == mid.coords,
            self.slots == mid.slots,
            fast_chunk_inv(ch, base, p, x_off, z_off, (p.x_size as int) * (p.z_size as int) * (
            p.y_size as int)),
            ch.spec_mesh() is Some == (mid.chunks@[spec_key(ch.spec_chunk_x(), ch.spec_chunk_z())].spec_mesh() is Some),
            ch.spec_uniform_offset() == mid.chunks@[spec_key(
                ch.spec_chunk_x(),
                ch.spec_chunk_z(),
            )].spec_uniform_offset(),
            ch.spec_uniform_index() == mid.chunks@[spec_key(
                ch.spec_chunk_x(),
                ch.spec_chunk_z(),
            )].spec_uniform_index(),
            base == mid.chunks@[spec_key(ch.spec_chunk_x(), ch.spec_chunk_z())].spec_blocks(),
            ch.wf(),
        ensures
            self.wf(),
            forall|wx: int, wy: int, wz: int|
                i32::MIN <= wx <= i32::MAX && 0 <= wy < 128 && i32::MIN <= wz <= i32::MAX
                    ==> #[trigger] self.spec_block_at(wx, wy, wz) == (if region_contains(
                    *p,
                    wx,
                    wy,
                    wz,
                ) {
                    p.blocks@[region_index(*p, wx, wy, wz)]
                } else {
                    entry.spec_block_at(wx, wy, wz)
                }),
            self.spec_cam_cx() == entry.spec_cam_cx(),
            self.spec_cam_cz() == entry.spec_cam_cz(),
            self.spec_stride() == entry.spec_stride(),
            self.spec_position_initialized() == entry.spec_position_initialized(),
    {
        let ccx = ch.spec_chunk_x();
        let ccz = ch.spec_chunk_z();
        let k = spec_key(ccx, ccz);
        assert(self.chunks@.dom() =~= mid.chunks@.dom());
        lemma_vc_congruence(
            self.chunks@.dom(),
            mid.chunks@.dom(),
            self.cam_cx as int,
            self.cam_cz as int,
            289,
        );
        assert forall|k2: u64| #[trigger] self.chunks@.contains_key(k2) implies {
            let c2 = self.chunks@[k2];
            &&& c2.wf()
            &&& spec_key(c2.spec_chunk_x(), c2.spec_chunk_z()) == k2
            &&& match c2.spec_uniform_index() {
                Some(i) => i < 289 && self.slots.slots()[i as int] == Some(
                    (c2.spec_chunk_x(), c2.spec_chunk_z()),
                ) && c2.spec_uniform_offset() == (i as int) * (self.element_stride as int),
                None => true,
            }
            &&& (c2.spec_uniform_index() is Some <==> in_window(
                self.cam_cx as int,
                self.cam_cz as int,
                c2.spec_chunk_x() as int,
                c2.spec_chunk_z() as int,
            ))
        } by {
            if k2 == k {
                assert(self.chunks@[k2] == *ch);
                assert(mid.chunks@.contains_key(k2));
                let cm = mid.chunks@[k2];
                assert(spec_key(cm.spec_chunk_x(), cm.spec_chunk_z()) == k2);
                lemma_key_injective(
                    cm.spec_chunk_x(),
                    cm.spec_chunk_z(),
                    ch.spec_chunk_x(),
                    ch.spec_chunk_z(),
                );
                assert(ch.spec_chunk_x() == cm.spec_chunk_x() && ch.spec_chunk_z()
                    == cm.spec_chunk_z());
                assert(ch.spec_uniform_index() == cm.spec_uniform_index());
                assert(ch.spec_uniform_offset() == cm.spec_uniform_offset());
                if let Some(i) = cm.spec_uniform_index() {
                    assert(i < 289 && mid.slots.slots()[i as int] == Some(
                        (cm.spec_chunk_x(), cm.spec_chunk_z()),
                    ));
                }
            } else {
                assert(self.chunks@[k2] == mid.chunks@[k2]);
                assert(mid.chunks@.contains_key(k2));
            }
        }
        lemma_chunk_coord_range(p.x as int);
        lemma_chunk_coord_range(p.z as int);
        lemma_coord_decompose(p.x as int);
        lemma_coord_decompose(p.z as int);
        assert forall|wx: int, wy: int, wz: int|
            i32::MIN <= wx <= i32::MAX && 0 <= wy < 128 && i32::MIN <= wz
                <= i32::MAX implies #[trigger] self.spec_block_at(wx, wy, wz) == (
        if region_contains(*p, wx, wy, wz) {
            p.blocks@[region_index(*p, wx, wy, wz)]
        } else {
            entry.spec_block_at(wx, wy, wz)
        }) by {
            lemma_coord_decompose(wx);
            lemma_coord_decompose(wz);
            lemma_chunk_coord_range(wx);
            lemma_chunk_coord_range(wz);
            let wcx = spec_chunk_coord(wx);
            let wcz = spec_chunk_coord(wz);
            let rbx = spec_chunk_relative(wx);
            let rbz = spec_chunk_relative(wz);
            lemma_block_index_bounds(rbx, wy, rbz);
            if key_at(wcx, wcz) == key_at(ccx as int, ccz as int) {
                lemma_key_at_injective(wcx, wcz, ccx as int, ccz as int);
                // inside the region's chunk: the grid invariant says it all
                assert(self.spec_block_at(wx, wy, wz) == ch.spec_blocks()[block_index(
                    rbx,
                    wy,
                    rbz,
                )]);
                if region_contains(*p, wx, wy, wz) {
                    assert(wcx * 16 + rbx == wx && (ccx as int) * 16 + (x_off as int)
                        == p.x as int) by {
                        assert(wx == 16 * wcx + rbx);
                        assert(p.x as int == 16 * spec_chunk_coord(p.x as int)
                            + spec_chunk_relative(p.x as int));
                    }
                    assert(rbx - x_off == wx - p.x && rbz - z_off == wz - p.z);
                    assert(x_off <= rbx < x_off + p.x_size);
                    assert(z_off <= rbz < z_off + p.z_size);
                    lemma_flat_bounds(
                        p.x_size as int,
                        p.z_size as int,
                        p.y_size as int,
                        rbx - x_off,
                        rbz - z_off,
                        wy - p.y,
                    );
                    assert(((rbx - x_off) * (p.z_size as int) + (rbz - z_off)) * (p.y_size as int)
                        + (wy - p.y) == region_index(*p, wx, wy, wz));
                    assert((p.x_size as int) * (p.y_size as int) * (p.z_size as int) == (
                    p.x_size as int) * (p.z_size as int) * (p.y_size as int)) by (nonlinear_arith);
                } else {
                    // same chunk, outside the region
                    if x_off <= rbx < x_off + p.x_size && p.y <= wy < p.y + p.y_size && z_off <= rbz
                        < z_off + p.z_size {
                        assert(wx == 16 * wcx + rbx);
                        assert(p.x as int == 16 * (ccx as int) + x_off);
                        assert(p.z as int == 16 * (ccz as int) + z_off);
                        assert(region_contains(*p, wx, wy, wz));
                    }
                    assert(ch.spec_blocks()[block_index(rbx, wy, rbz)] == base[block_index(
                        rbx,
                        wy,
                        rbz,
                    )]);
                    if entry.spec_contains(wcx, wcz) {
                        assert(mid == entry);
                    } else {
                        assert(base == Seq::new(32768nat, |i: int| Block::Air));
                        assert(entry.spec_block_at(wx, wy, wz) == Block::Air);
                    }
                }
            } else {
                // a different chunk: untouched, and outside the region
                if region_contains(*p, wx, wy, wz) {
                    vstd::arithmetic::div_mod::lemma_div_is_ordered(p.x as int, wx, 16);
                    vstd::arithmetic::div_mod::lemma_div_is_ordered(
                        wx,
                        p.x as int + p.x_size as int - 1,
                        16,
                    );
                    vstd::arithmetic::div_mod::lemma_div_is_ordered(p.z as int, wz, 16);
                    vstd::arithmetic::div_mod::lemma_div_is_ordered(
                        wz,
                        p.z as int + p.z_size as int - 1,
                        16,
                    );
                    assert(spec_chunk_coord(p.x as int) == spec_chunk_coord(
                        p.x as int + p.x_size as int - 1,
                    )) by {
                        lemma_coord_decompose(p.x as int + p.x_size as int - 1);
                    }
                    assert(spec_chunk_coord(p.z as int) == spec_chunk_coord(
                        p.z as int + p.z_size as int - 1,
                    )) by {
                        lemma_coord_decompose(p.z as int + p.z_size as int - 1);
                    }
                    assert(wcx == ccx as int && wcz == ccz as int);
                    assert(false);
                }
                if self.spec_chunks().contains_key(key_at(wcx, wcz)) {
                    assert(self.spec_chunks()[key_at(wcx, wcz)] == mid.spec_chunks()[key_at(
                        wcx,
                        wcz,
                    )]);
                }
                if entry.spec_contains(spec_chunk_coord(p.x as int), spec_chunk_coord(p.z as int)) {
                    assert(mid == entry);
                }
            }
        }
    }
}

impl World {
    /// Rebuilds the cached mesh of every dirty chunk, leaving every chunk
    /// clean and every mesh faithful to its chunk's current blocks. Runs
    /// once per update tick, not on every mutation.
    pub fn rebuild_dirty_meshes(&mut self)
        requires
            old(self).wf(),
        ensures
            final(self).wf(),
            final(self).spec_chunks().dom() == old(self).spec_chunks().dom(),
            forall|k: u64|
                #[trigger] final(self).spec_chunks().contains_key(k) ==> {
                    let c2 = final(self).spec_chunks()[k];
                    let c1 = old(self).spec_chunks()[k];
                    &&& c2.spec_blocks() == c1.spec_blocks()
                    &&& !c2.spec_dirty()
                    &&& (c1.spec_dirty() ==> (c2.spec_mesh() matches Some(m) && m.vertices@
                        == crate::chunk::chunk_mesh_vertices(c1.spec_blocks()) && m.indices@
                        == crate::chunk::chunk_mesh_indices(c1.spec_blocks())))
                    &&& (!c1.spec_dirty() ==> c2.spec_mesh() == c1.spec_mesh())
                },
            final(self).spec_cam_cx() == old(self).spec_cam_cx(),
            final(self).spec_cam_cz() == old(self).spec_cam_cz(),
            final(self).spec_stride() == old(self).spec_stride(),
            final(self).spec_position_initialized() == old(self).spec_position_initialized(),
    {
        let n = self.coords.len();
        let mut i: usize = 0;
        while i < n
            invariant
                old(self).wf(),
                i <= n,
                n == self.coords@.len(),
                self.coords == old(self).coords,
                self.slots == old(self).slots,
                self.cam_cx == old(self).cam_cx,
                self.cam_cz == old(self).cam_cz,
                self.element_stride == old(self).element_stride,
                self.position_initialized == old(self).position_initialized,
                self.wf(),
                self.chunks@.dom() == old(self).chunks@.dom(),
                forall|t: int|
                    0 <= t < i ==> {
                        let c2 = self.chunks@[#[trigger] self.coords@[t]];
                        let c1 = old(self).chunks@[self.coords@[t]];
                        &&& c2.spec_blocks() == c1.spec_blocks()
                        &&& !c2.spec_dirty()
                        &&& (c1.spec_dirty() ==> (c2.spec_mesh() matches Some(m) && m.vertices@
                            == crate::chunk::chunk_mesh_vertices(c1.spec_blocks()) && m.indices@
                            == crate::chunk::chunk_mesh_indices(c1.spec_blocks())))
                        &&& (!c1.spec_dirty() ==> c2.spec_mesh() == c1.spec_mesh())
                    },
                forall|t: int|
                    i <= t < n ==> self.chunks@[#[trigger] self.coords@[t]] == old(self).chunks@[
                    self.coords@[t]],
            decreases n - i,
        {
            let k = self.coords[i];
            proof {
                assert(self.coords@.to_set().contains(k));
                assert(self.chunks@.dom().contains(k));
            }
            let ghost mid = *self;
            match self.chunks.remove(&k) {
                Some(mut ch) => {
                    if ch.needs_mesh_rebuild() {
                        ch.rebuild_mesh();
                    }
                    self.chunks.insert(k, ch);
                    proof {
                        assert(self.chunks@.dom() =~= mid.chunks@.dom());
                        lemma_vc_congruence(
                            self.chunks@.dom(),
                            mid.chunks@.dom(),
                            self.cam_cx as int,
                            self.cam_cz as int,
                            289,
                        );
                        assert forall|t: int| i + 1 <= t < n implies self.chunks@[
                        #[trigger] self.coords@[t]] == old(self).chunks@[self.coords@[t]] by {
                            assert(self.coords@[t] != k) by {
                                assert(self.coords@[i as int] == k);
                            }
                        }
                        assert forall|t: int| 0 <= t < i + 1 implies {
                            let c2 = self.chunks@[#[trigger] self.coords@[t]];
                            let c1 = old(self).chunks@[self.coords@[t]];
                            &&& c2.spec_blocks() == c1.spec_blocks()
                            &&& !c2.spec_dirty()
                            &&& (c1.spec_dirty() ==> (c2.spec_mesh() matches Some(m) && m.vertices@
                                == crate::chunk::chunk_mesh_vertices(c1.spec_blocks()) && m.indices@
                                == crate::chunk::chunk_mesh_indices(c1.spec_blocks())))
                            &&& (!c1.spec_dirty() ==> c2.spec_mesh() == c1.spec_mesh())
                        } by {
                            if t < i {
                                assert(self.coords@[t] != k) by {
                                    assert(self.coords@[i as int] == k);
                                }
                                assert(self.chunks@[self.coords@[t]] == mid.chunks@[self.coords@[
                                t]]);
                            } else {
                                assert(self.coords@[t] == k);
                                assert(mid.chunks@[k] == old(self).chunks@[k]);
                            }
                        }
                    }
                },
                None => {
                    proof {
                        assert(false);
                    }
                },
            }
            i = i + 1;
        }
        proof {
            assert forall|k: u64| #[trigger] self.chunks@.contains_key(k) implies {
                let c2 = self.chunks@[k];
                let c1 = old(self).chunks@[k];
                &&& c2.spec_blocks() == c1.spec_blocks()
                &&& !c2.spec_dirty()
                &&& (c1.spec_dirty() ==> (c2.spec_mesh() matches Some(m) && m.vertices@
                    == crate::chunk::chunk_mesh_vertices(c1.spec_blocks()) && m.indices@
                    == crate::chunk::chunk_mesh_indices(c1.spec_blocks())))
                &&& (!c1.spec_dirty() ==> c2.spec_mesh() == c1.spec_mesh())
            } by {
                assert(self.coords@.to_set().contains(k));
                assert(self.coords@.contains(k));
                let t = choose|t: int| 0 <= t < self.coords@.len() && self.coords@[t] == k;
            }
        }
    }

    /// Applies one decoded inbound packet to the world state: the single
    /// dispatch point between the wire and game-state mutation. Position
    /// packets carry float fields whose flooring happens at the caller,
    /// which then drives [`World::set_camera_position`]; every packet with
    /// no world effect leaves the state untouched.
    pub fn apply_packet(&mut self, p: &ServerPacket)
        requires
            old(self).wf(),
            packet_applicable(p),
        ensures
            final(self).wf(),
            p matches ServerPacket::InitChunk(q) ==> {
                &&& q.init ==> *final(self) == *old(self)
                &&& !q.init ==> (!final(self).spec_contains(q.chunk_x as int, q.chunk_z as int)
                    && forall|i: int|
                    0 <= i < 289 ==> final(self).spec_slots()[i] != Some((q.chunk_x, q.chunk_z)))
            },
            p matches ServerPacket::SetBlock(q) ==> forall|wx: int, wy: int, wz: int|
                i32::MIN <= wx <= i32::MAX && 0 <= wy < 128 && i32::MIN <= wz <= i32::MAX
                    ==> #[trigger] final(self).spec_block_at(wx, wy, wz) == (if wx == q.x && wy
                    == q.y as int && wz == q.z {
                    q.block
                } else {
                    old(self).spec_block_at(wx, wy, wz)
                }),
            p matches ServerPacket::SetContiguousBlocks(q) ==> forall|wx: int, wy: int, wz: int|
                i32::MIN <= wx <= i32::MAX && 0 <= wy < 128 && i32::MIN <= wz <= i32::MAX
                    ==> #[trigger] final(self).spec_block_at(wx, wy, wz) == (if region_contains(
                    *q,
                    wx,
                    wy,
                    wz,
                ) {
                    q.blocks@[region_index(*q, wx, wy, wz)]
                } else {
                    old(self).spec_block_at(wx, wy, wz)
                }),
            p matches ServerPacket::SetBlocks(q) ==> (final(self).spec_contains(
                q.chunk_x as int,
                q.chunk_z as int,
            ) && final(self).spec_chunk_at(q.chunk_x as int, q.chunk_z as int).spec_blocks()
                == apply_block_writes(
                (if old(self).spec_contains(q.chunk_x as int, q.chunk_z as int) {
                    old(self).spec_chunk_at(q.chunk_x as int, q.chunk_z as int).spec_blocks()
                } else {
                    Seq::new(32768nat, |i: int| Block::Air)
                }),
                q.positions@,
                q.types@,
                q.positions@.len() as int,
            )),
            !(p matches ServerPacket::InitChunk(_) || p matches ServerPacket::SetBlock(_) || p
                matches ServerPacket::SetBlocks(_) || p matches ServerPacket::SetContiguousBlocks(
                _,
            )) ==> *final(self) == *old(self),
            final(self).spec_cam_cx() == old(self).spec_cam_cx(),
            final(self).spec_cam_cz() == old(self).spec_cam_cz(),
            final(self).spec_stride() == old(self).spec_stride(),
            final(self).spec_position_initialized() == old(self).spec_position_initialized(),
    {
        match p {
            ServerPacket::InitChunk(q) => self.handle_init_chunk(q),
            ServerPacket::SetBlock(q) => self.handle_set_block(q),
            ServerPacket::SetBlocks(q) => self.handle_set_blocks(q),
            ServerPacket::SetContiguousBlocks(q) => self.handle_set_contiguous_blocks(q),
            _ => {},
        }
    }
}

/// What the world demands of a block packet before applying it. A violation
/// is a programming error that should halt the process, so the caller checks
/// and panics rather than applying the packet.
pub open spec fn packet_applicable(p: &ServerPacket) -> bool {
    match p {
        ServerPacket::SetBlock(q) => q.y < 128,
        ServerPacket::SetBlocks(q) => {
            &&& q.types@.len() == q.positions@.len()
            &&& q.data@.len() == q.positions@.len()
            &&& forall|i: int|
                0 <= i < q.positions@.len() ==> (#[trigger] q.positions@[i]).0 < 16
                    && q.positions@[i].1 < 128 && q.positions@[i].2 < 16
        },
        ServerPacket::SetContiguousBlocks(q) => {
            &&& 0 < q.x_size
            &&& 0 < q.y_size
            &&& 0 < q.z_size
            &&& 0 <= q.y
            &&& q.y + q.y_size <= 128
            &&& q.x + q.x_size <= 0x80000000
            &&& q.z + q.z_size <= 0x80000000
            &&& q.blocks@.len() == (q.x_size as int) * (q.y_size as int) * (q.z_size as int)
        },
        _ => true,
    }
}

} // verus!

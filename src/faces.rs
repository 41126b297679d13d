//! The exposed unit faces of a chunk's voxels, one list per facing.
use vstd::prelude::*;
use crate::bits::bit;
use crate::position::column_index;
use crate::voxel_storage::VoxelStorage;

verus! {

/// A horizontal direction inside the chunk grid.
#[derive(Clone, Copy, Debug, PartialEq, Eq, Structural)]
pub enum Direction {
    /// Towards smaller `x`.
    Left,
    /// Towards larger `x`.
    Right,
    /// Towards smaller `z`.
    Front,
    /// Towards larger `z`.
    Back,
}

impl Direction {
    /// The unit offset of the direction, as `(dx, dz)`.
    pub open spec fn offset(self) -> (int, int) {
        match self {
            Direction::Left => (-1, 0),
            Direction::Right => (1, 0),
            Direction::Front => (0, -1),
            Direction::Back => (0, 1),
        }
    }

    /// The column next to `(x, z)` in this direction, unless `(x, z)` lies on the
    /// chunk's edge on that side.
    pub open spec fn spec_neighbor(self, x: int, z: int) -> Option<(int, int)> {
        let (nx, nz) = (x + self.offset().0, z + self.offset().1);
        if 0 <= nx < 64 && 0 <= nz < 64 {
            Some((nx, nz))
        } else {
            None
        }
    }

    /// The column next to `p = [x, z]` in this direction, if the chunk has one.
    pub fn neighbor(self, p: [u8; 2]) -> (r: Option<[u8; 2]>)
        requires
            p[0] < 64,
            p[1] < 64,
        ensures
            r is None <==> self.spec_neighbor(p[0] as int, p[1] as int) is None,
            r matches Some(q) ==> self.spec_neighbor(p[0] as int, p[1] as int) == Some(
                (q[0] as int, q[1] as int),
            ),
    {
        match self {
            Direction::Left => if p[0] == 0 {
                None
            } else {
                Some([p[0] - 1, p[1]])
            },
            Direction::Right => if p[0] == 63 {
                None
            } else {
                Some([p[0] + 1, p[1]])
            },
            Direction::Front => if p[1] == 0 {
                None
            } else {
                Some([p[0], p[1] - 1])
            },
            Direction::Back => if p[1] == 63 {
                None
            } else {
                Some([p[0], p[1] + 1])
            },
        }
    }
}

/// The facing of a face.
pub enum Side {
    Top,
    Bottom,
    Horizontal(Direction),
}

/// The exposed faces of a storage, as the positions of the voxels they belong to.
pub struct Faces {
    pub top: Vec<[u8; 3]>,
    pub bottom: Vec<[u8; 3]>,
    pub left: Vec<[u8; 3]>,
    pub right: Vec<[u8; 3]>,
    pub front: Vec<[u8; 3]>,
    pub back: Vec<[u8; 3]>,
}

/// Top faces from the height pairs `(y, y + 1)` with `y < n`: one at `y` where `y`
/// is empty and `y + 1` filled.
pub open spec fn top_transitions(col: u64, x: u8, z: u8, n: nat) -> Seq<[u8; 3]>
    decreases n,
{
    if n == 0 {
        seq![]
    } else {
        let y = (n - 1) as u64;
        top_transitions(col, x, z, (n - 1) as nat) + if !bit(col, y) && bit(col, (y + 1) as u64) {
            seq![[x, y as u8, z]]
        } else {
            seq![]
        }
    }
}

/// Bottom faces from the height pairs `(y, y + 1)` with `y < n`: one at `y + 1` where
/// `y` is filled and `y + 1` empty.
pub open spec fn bottom_transitions(col: u64, x: u8, z: u8, n: nat) -> Seq<[u8; 3]>
    decreases n,
{
    if n == 0 {
        seq![]
    } else {
        let y = (n - 1) as u64;
        bottom_transitions(col, x, z, (n - 1) as nat) + if bit(col, y) && !bit(
            col,
            (y + 1) as u64,
        ) {
            seq![[x, (y + 1) as u8, z]]
        } else {
            seq![]
        }
    }
}

/// Faces at the heights `y < n` that are filled in `col` and empty in `next`.
pub open spec fn side_run(col: u64, next: u64, x: u8, z: u8, n: nat) -> Seq<[u8; 3]>
    decreases n,
{
    if n == 0 {
        seq![]
    } else {
        let y = (n - 1) as u64;
        side_run(col, next, x, z, (n - 1) as nat) + if bit(col, y) && !bit(next, y) {
            seq![[x, y as u8, z]]
        } else {
            seq![]
        }
    }
}

/// Top faces of a column: its transitions, and the top of the world above a
/// filled height 63.
pub open spec fn column_tops(col: u64, x: u8, z: u8) -> Seq<[u8; 3]> {
    top_transitions(col, x, z, 63) + if bit(col, 63) {
        seq![[x, 63u8, z]]
    } else {
        seq![]
    }
}

/// Bottom faces of a column: the floor of the world below a filled height 0, and its
/// transitions.
pub open spec fn column_bottoms(col: u64, x: u8, z: u8) -> Seq<[u8; 3]> {
    (if bit(col, 0) {
        seq![[x, 0u8, z]]
    } else {
        seq![]
    }) + bottom_transitions(col, x, z, 63)
}

/// The column beside `(x, z)` in direction `d`; where the chunk ends there, an empty
/// one, so that the edge counts as open.
pub open spec fn next_column(raw: Seq<u64>, d: Direction, x: int, z: int) -> u64 {
    match d.spec_neighbor(x, z) {
        Some((nx, nz)) => raw[column_index(nx, nz)],
        None => 0u64,
    }
}

/// The faces of one facing that the column at `(x, z)` of `raw` exposes.
pub open spec fn column_faces(raw: Seq<u64>, side: Side, x: int, z: int) -> Seq<[u8; 3]> {
    let col = raw[column_index(x, z)];
    match side {
        Side::Top => column_tops(col, x as u8, z as u8),
        Side::Bottom => column_bottoms(col, x as u8, z as u8),
        Side::Horizontal(d) => side_run(col, next_column(raw, d, x, z), x as u8, z as u8, 64),
    }
}

/// The faces of one facing from the first `n` columns, taken with `x` outer and `z`
/// inner.
pub open spec fn storage_faces(raw: Seq<u64>, side: Side, n: nat) -> Seq<[u8; 3]>
    decreases n,
{
    if n == 0 {
        seq![]
    } else {
        let k = n - 1;
        storage_faces(raw, side, (n - 1) as nat) + column_faces(raw, side, k / 64, k % 64)
    }
}

/// Each pair of heights gives at most one transition face.
proof fn lemma_transitions_len(col: u64, x: u8, z: u8, n: nat)
    ensures
        top_transitions(col, x, z, n).len() <= n,
        bottom_transitions(col, x, z, n).len() <= n,
    decreases n,
{
    if n > 0 {
        lemma_transitions_len(col, x, z, (n - 1) as nat);
    }
}

/// Each height gives at most one side face.
proof fn lemma_side_run_len(col: u64, next: u64, x: u8, z: u8, n: nat)
    ensures
        side_run(col, next, x, z, n).len() <= n,
    decreases n,
{
    if n > 0 {
        lemma_side_run_len(col, next, x, z, (n - 1) as nat);
    }
}

/// Each column gives at most 64 faces of one facing.
pub proof fn lemma_storage_faces_len(raw: Seq<u64>, side: Side, n: nat)
    requires
        n <= raw.len(),
        raw.len() == 4096,
    ensures
        storage_faces(raw, side, n).len() <= 64 * n,
    decreases n,
{
    if n > 0 {
        let k = n - 1;
        lemma_storage_faces_len(raw, side, (n - 1) as nat);
        let (x, z) = (k / 64, k % 64);
        let col = raw[column_index(x, z)];
        lemma_transitions_len(col, x as u8, z as u8, 63);
        if let Side::Horizontal(d) = side {
            lemma_side_run_len(col, next_column(raw, d, x, z), x as u8, z as u8, 64);
        }
    }
}

impl Faces {
    /// No faces.
    pub fn empty() -> (r: Faces)
        ensures
            r.top@.len() == 0,
            r.bottom@.len() == 0,
            r.left@.len() == 0,
            r.right@.len() == 0,
            r.front@.len() == 0,
            r.back@.len() == 0,
    {
        Faces {
            top: Vec::new(),
            bottom: Vec::new(),
            left: Vec::new(),
            right: Vec::new(),
            front: Vec::new(),
            back: Vec::new(),
        }
    }

    /// Number of faces over all six lists.
    pub open spec fn spec_total(&self) -> nat {
        self.top@.len() + self.bottom@.len() + self.left@.len() + self.right@.len()
            + self.front@.len() + self.back@.len()
    }

    /// Number of faces over all six lists.
    pub fn total(&self) -> (r: usize)
        requires
            self.spec_total() <= usize::MAX,
        ensures
            r == self.spec_total(),
    {
        self.top.len() + self.bottom.len() + self.left.len() + self.right.len() + self.front.len()
            + self.back.len()
    }
}

/// Appends the top and bottom faces of one column.
fn push_vertical_faces(
    column: u64,
    x: u8,
    z: u8,
    top: &mut Vec<[u8; 3]>,
    bottom: &mut Vec<[u8; 3]>,
)
    ensures
        final(top)@ == old(top)@ + column_tops(column, x, z),
        final(bottom)@ == old(bottom)@ + column_bottoms(column, x, z),
{
    let ghost floor: Seq<[u8; 3]> = if bit(column, 0) {
        seq![[x, 0u8, z]]
    } else {
        seq![]
    };
    assert((column >> 0u64) & 1u64 == column & 1u64) by (bit_vector);
    if column & 1 == 1 {
        bottom.push([x, 0, z]);
    }
    assert(bottom@ =~= old(bottom)@ + floor + bottom_transitions(column, x, z, 0));
    assert(top@ =~= old(top)@ + top_transitions(column, x, z, 0));
    let mut y: u8 = 0;
    while y < 63
        invariant
            y <= 63,
            top@ == old(top)@ + top_transitions(column, x, z, y as nat),
            bottom@ == old(bottom)@ + floor + bottom_transitions(column, x, z, y as nat),
        decreases 63 - y,
    {
        let pair = (column >> y) & 0b11;
        let yy = y as u64;
        let y1 = (y + 1) as u64;
        assert((pair == 2u64) == ((column >> yy) & 1u64 != 1u64 && (column >> y1) & 1u64
            == 1u64)) by (bit_vector)
            requires
                yy < 63,
                y1 == yy + 1,
                pair == (column >> yy) & 3u64,
        ;
        assert((pair == 1u64) == ((column >> yy) & 1u64 == 1u64 && (column >> y1) & 1u64
            != 1u64)) by (bit_vector)
            requires
                yy < 63,
                y1 == yy + 1,
                pair == (column >> yy) & 3u64,
        ;
        let ghost top_before = top@;
        let ghost bottom_before = bottom@;
        if pair == 0b10 {
            top.push([x, y, z]);
        } else if pair == 0b01 {
            bottom.push([x, y + 1, z]);
        }
        assert(top@ =~= old(top)@ + top_transitions(column, x, z, (y + 1) as nat));
        assert(bottom@ =~= old(bottom)@ + floor + bottom_transitions(column, x, z, (y + 1) as nat));
        y = y + 1;
    }
    let ghost top_before = top@;
    assert((column >> 63u64) & 1u64 == column >> 63u64) by (bit_vector);
    if column >> 63 == 1 {
        top.push([x, 63, z]);
    }
    assert(top@ =~= old(top)@ + column_tops(column, x, z));
    assert(bottom@ =~= old(bottom)@ + column_bottoms(column, x, z));
}

/// Appends the faces at the heights filled in `column` and empty in `next`.
fn push_side_faces(column: u64, next: u64, x: u8, z: u8, dst: &mut Vec<[u8; 3]>)
    ensures
        final(dst)@ == old(dst)@ + side_run(column, next, x, z, 64),
{
    assert(dst@ =~= old(dst)@ + side_run(column, next, x, z, 0));
    let mut y: u8 = 0;
    while y < 64
        invariant
            y <= 64,
            dst@ == old(dst)@ + side_run(column, next, x, z, y as nat),
        decreases 64 - y,
    {
        let yy = y as u64;
        assert(((next >> yy) & 1u64 == 0u64) == ((next >> yy) & 1u64 != 1u64)) by (bit_vector);
        if (column >> y) & 1 == 1 && (next >> y) & 1 == 0 {
            dst.push([x, y, z]);
        }
        assert(dst@ =~= old(dst)@ + side_run(column, next, x, z, (y + 1) as nat));
        y = y + 1;
    }
}

impl VoxelStorage {
    /// Appends the faces that the column at `(x, z)` exposes towards `d`.
    fn push_faces_towards(&self, d: Direction, x: u8, z: u8, dst: &mut Vec<[u8; 3]>)
        requires
            self.wf(),
            x < 64,
            z < 64,
        ensures
            final(dst)@ == old(dst)@ + column_faces(
                self.raw@,
                Side::Horizontal(d),
                x as int,
                z as int,
            ),
    {
        let column = self.raw[x as usize + z as usize * 64];
        let next = match d.neighbor([x, z]) {
            Some(p) => self.raw[p[0] as usize + p[1] as usize * 64],
            None => 0,
        };
        push_side_faces(column, next, x, z, dst);
    }

    /// The exposed faces of every column, taken with `x` outer and `z` inner.
    pub fn visible_faces(&self) -> (r: Faces)
        requires
            self.wf(),
        ensures
            r.top@ == storage_faces(self.raw@, Side::Top, 4096),
            r.bottom@ == storage_faces(self.raw@, Side::Bottom, 4096),
            r.left@ == storage_faces(self.raw@, Side::Horizontal(Direction::Left), 4096),
            r.right@ == storage_faces(self.raw@, Side::Horizontal(Direction::Right), 4096),
            r.front@ == storage_faces(self.raw@, Side::Horizontal(Direction::Front), 4096),
            r.back@ == storage_faces(self.raw@, Side::Horizontal(Direction::Back), 4096),
            r.spec_total() <= 6 * 4096 * 64,
    {
        let mut faces = Faces::empty();
        assert(faces.top@ =~= storage_faces(self.raw@, Side::Top, 0));
        assert(faces.bottom@ =~= storage_faces(self.raw@, Side::Bottom, 0));
        assert(faces.left@ =~= storage_faces(self.raw@, Side::Horizontal(Direction::Left), 0));
        assert(faces.right@ =~= storage_faces(self.raw@, Side::Horizontal(Direction::Right), 0));
        assert(faces.front@ =~= storage_faces(self.raw@, Side::Horizontal(Direction::Front), 0));
        assert(faces.back@ =~= storage_faces(self.raw@, Side::Horizontal(Direction::Back), 0));
        let mut k: usize = 0;
        while k < 4096
            invariant
                k <= 4096,
                self.wf(),
                faces.top@ == storage_faces(self.raw@, Side::Top, k as nat),
                faces.bottom@ == storage_faces(self.raw@, Side::Bottom, k as nat),
                faces.left@ == storage_faces(self.raw@, Side::Horizontal(Direction::Left), k as nat),
                faces.right@ == storage_faces(
                    self.raw@,
                    Side::Horizontal(Direction::Right),
                    k as nat,
                ),
                faces.front@ == storage_faces(
                    self.raw@,
                    Side::Horizontal(Direction::Front),
                    k as nat,
                ),
                faces.back@ == storage_faces(self.raw@, Side::Horizontal(Direction::Back), k as nat),
            decreases 4096 - k,
        {
            let x = (k / 64) as u8;
            let z = (k % 64) as u8;
            let column = self.raw[x as usize + z as usize * 64];
            push_vertical_faces(column, x, z, &mut faces.top, &mut faces.bottom);
            self.push_faces_towards(Direction::Left, x, z, &mut faces.left);
            self.push_faces_towards(Direction::Right, x, z, &mut faces.right);
            self.push_faces_towards(Direction::Front, x, z, &mut faces.front);
            self.push_faces_towards(Direction::Back, x, z, &mut faces.back);
            k = k + 1;
        }
        proof {
            lemma_storage_faces_len(self.raw@, Side::Top, 4096);
            lemma_storage_faces_len(self.raw@, Side::Bottom, 4096);
            lemma_storage_faces_len(self.raw@, Side::Horizontal(Direction::Left), 4096);
            lemma_storage_faces_len(self.raw@, Side::Horizontal(Direction::Right), 4096);
            lemma_storage_faces_len(self.raw@, Side::Horizontal(Direction::Front), 4096);
            lemma_storage_faces_len(self.raw@, Side::Horizontal(Direction::Back), 4096);
        }
        faces
    }
}

} // verus!

//! Building meshes from the faces of a level: which vertices make up the
//! triangles of a face, and where the tree of the level leads.

use crate::drawable::MeshRange;
use regex::Regex;
use vstd::prelude::*;

verus! {

/// Whether `regex::Regex::new` makes an expression of a pattern.
pub uninterp spec fn is_pattern(pattern: Seq<char>) -> bool;

/// Whether the expression that `regex::Regex::new` makes of a pattern
/// matches anywhere in a text, as `regex::Regex::is_match` finds it.
pub uninterp spec fn pattern_matches(pattern: Seq<char>, text: Seq<char>) -> bool;

/// The last component of a path, as `std::path::Path::file_name` finds it.
pub uninterp spec fn path_file_name(path: Seq<char>) -> Option<Seq<char>>;

/// `regex::Regex::new` and `regex::Regex::is_match` on its result: whether
/// the expression for the pattern matches anywhere in the text, or nothing
/// where the pattern makes no expression. Both depend on the pattern and
/// the text alone.
#[verifier::external_body]
fn match_pattern(pattern: &str, text: &str) -> (matched: Option<bool>)
    ensures
        matched is Some <==> is_pattern(pattern@),
        matched matches Some(found) ==> found == pattern_matches(pattern@, text@),
{
    match Regex::new(pattern) {
        Ok(regex) => Some(regex.is_match(text)),
        Err(_) => None,
    }
}

/// `std::path::Path::file_name`: the last component of the path, where it
/// has one.
#[verifier::external_body]
fn file_name_of(path: &str) -> (name: Option<&str>)
    ensures
        name is Some <==> path_file_name(path@) is Some,
        name matches Some(n) ==> n@ == path_file_name(path@)->0,
{
    std::path::Path::new(path).file_name().and_then(|name| name.to_str())
}

/// Loads levels: it knows the files that hold one by their names.
pub struct BspLevelLoader {
    map_name_pattern: String,
}

impl BspLevelLoader {
    /// The pattern that names of levels match.
    pub closed spec fn pattern(self) -> Seq<char> {
        self.map_name_pattern@
    }

    /// The loader's pattern makes an expression.
    #[verifier::type_invariant]
    closed spec fn wf(self) -> bool {
        is_pattern(self.map_name_pattern@)
    }

    /// A loader for the files whose names match `map_name_pattern`, where
    /// that is a pattern.
    pub fn new(map_name_pattern: &str) -> (loader: Option<Self>)
        ensures
            loader is Some <==> is_pattern(map_name_pattern@),
            loader matches Some(made) ==> made.pattern() == map_name_pattern@,
    {
        match match_pattern(map_name_pattern, "") {
            Some(_found) => Some(BspLevelLoader { map_name_pattern: map_name_pattern.to_owned() }),
            None => None,
        }
    }

    /// Whether the file at `path` is taken for a level: its name matches
    /// the loader's pattern. A path without a file name is not.
    pub fn matches(&self, path: &str) -> (matches: bool)
        ensures
            matches == match path_file_name(path@) {
                Some(name) => pattern_matches(self.pattern(), name),
                None => false,
            },
    {
        proof {
            use_type_invariant(self);
        }
        match file_name_of(path) {
            Some(file_name) => match match_pattern(self.map_name_pattern.as_str(), file_name) {
                Some(found) => found,
                None => false,
            },
            None => false,
        }
    }
}

/// What a child of a node of the level's tree is.
#[derive(Clone, Copy, Debug, PartialEq, Eq, Structural)]
pub enum Child {
    /// The leaf with this index.
    Leaf(usize),
    /// The node with this index.
    Node(usize),
}

/// The child that `index` names: a negative index names a leaf, counted
/// down from -1.
pub fn read_child(index: i32) -> (child: Child)
    ensures
        child == if index < 0 {
            Child::Leaf((-1 - index) as usize)
        } else {
            Child::Node(index as usize)
        },
{
    if index < 0 {
        Child::Leaf((-1 - index) as usize)
    } else {
        Child::Node(index as usize)
    }
}

/// Which of the two vertices of an edge a surface edge starts at: the
/// first, or for a negative reference the second.
pub fn edge_start(edge_index: i32) -> (vertex: usize)
    ensures
        vertex == if edge_index >= 0 {
            0usize
        } else {
            1usize
        },
{
    if edge_index >= 0 {
        0
    } else {
        1
    }
}

/// The indices of the triangles of a face with `edges_count` corners whose
/// first vertex has the index `root_vertex`: a fan around the first
/// vertex, one triangle for each corner from the third on.
pub open spec fn fan_indices(root_vertex: u32, edges_count: int) -> Seq<u32>
    decreases edges_count,
{
    if edges_count <= 2 {
        Seq::empty()
    } else {
        fan_indices(root_vertex, edges_count - 1).push(root_vertex).push(
            (root_vertex + edges_count - 1) as u32,
        ).push((root_vertex + edges_count - 2) as u32)
    }
}

/// Puts the indices of the triangles of a face behind `indices`.
pub fn build_face(root_vertex: u32, edges_count: u32, indices: &mut Vec<u32>)
    requires
        root_vertex + edges_count <= u32::MAX,
    ensures
        final(indices)@ == old(indices)@ + fan_indices(root_vertex, edges_count as int),
{
    let ghost before = indices@;
    let mut corner: u32 = 0;
    proof {
        assert(before + fan_indices(root_vertex, 0) =~= before);
    }
    while corner < edges_count
        invariant
            corner <= edges_count,
            root_vertex + edges_count <= u32::MAX,
            indices@ == before + fan_indices(root_vertex, corner as int),
        decreases edges_count - corner,
    {
        let ghost held = fan_indices(root_vertex, corner as int);
        if corner >= 2 {
            indices.push(root_vertex);
            indices.push(root_vertex + corner);
            indices.push(root_vertex + corner - 1);
            proof {
                assert(indices@ =~= before + fan_indices(root_vertex, corner + 1));
            }
        } else {
            proof {
                assert(fan_indices(root_vertex, corner + 1) =~= held);
            }
        }
        corner = corner + 1;
    }
}

/// The indices of the two triangles of one cell of a displacement, whose
/// four vertices start at `root_vertex`.
pub open spec fn cell_indices(root_vertex: u32) -> Seq<u32> {
    seq![
        root_vertex,
        (root_vertex + 2) as u32,
        (root_vertex + 1) as u32,
        root_vertex,
        (root_vertex + 3) as u32,
        (root_vertex + 2) as u32,
    ]
}

/// Puts the indices of the two triangles of one cell of a displacement
/// behind `indices`.
pub fn build_displacement_cell(root_vertex: u32, indices: &mut Vec<u32>)
    requires
        root_vertex + 3 <= u32::MAX,
    ensures
        final(indices)@ == old(indices)@ + cell_indices(root_vertex),
{
    let ghost before = indices@;
    indices.push(root_vertex);
    indices.push(root_vertex + 2);
    indices.push(root_vertex + 1);
    indices.push(root_vertex);
    indices.push(root_vertex + 3);
    indices.push(root_vertex + 2);
    proof {
        assert(indices@ =~= before + cell_indices(root_vertex));
    }
}

/// Number of cells along one side of a displacement of the given power.
pub fn displacement_size(power: u32) -> (size: i32)
    requires
        power < 31,
    ensures
        size == vstd::arithmetic::power2::pow2(power as nat),
{
    proof {
        vstd::arithmetic::power2::lemma2_to64();
        vstd::arithmetic::power2::lemma_pow2_strictly_increases(power as nat, 31);
        assert(1 * vstd::arithmetic::power2::pow2(power as nat) <= u32::MAX);
        vstd::bits::lemma_u32_shl_is_mul(1, power);
    }
    let size: u32 = 1u32 << power;
    size as i32
}

/// The index of the displacement vertex at `x` and `y` of a displacement
/// with `size` cells along a side whose vertices start at `offset`.
pub fn disp_vert_index(offset: i32, x: i32, y: i32, size: i32) -> (index: usize)
    requires
        0 <= offset,
        0 <= x <= size,
        0 <= y <= size,
        offset + x + y * (size + 1) <= i32::MAX,
    ensures
        index == offset + x + y * (size + 1),
{
    assert(0 <= y * (size + 1) <= 0x8000_0000 * 0x8000_0000) by (nonlinear_arith)
        requires
            0 <= y <= size,
            0 <= size < 0x8000_0000,
    ;
    let row: i64 = (y as i64) * (size as i64 + 1);
    (offset as i64 + x as i64 + row) as usize
}

/// The corner of a face that corner `k` of a displacement lies at, when the
/// displacement starts at corner `first_corner`.
pub fn corner_index(first_corner: i32, k: i32) -> (corner: usize)
    requires
        0 <= first_corner < 4,
        0 <= k < 4,
    ensures
        corner == (first_corner + k) % 4,
{
    let sum: i32 = first_corner + k;
    if sum >= 4 {
        (sum - 4) as usize
    } else {
        sum as usize
    }
}

/// The displacement that a face with the given reference is laid over, if
/// it has one: -1 says that it has none.
pub fn face_displacement(displacement_info: i32) -> (displacement: Option<usize>)
    requires
        displacement_info >= -1,
    ensures
        displacement == if displacement_info == -1 {
            None
        } else {
            Some(displacement_info as usize)
        },
{
    if displacement_info != -1 {
        Some(displacement_info as usize)
    } else {
        None
    }
}

/// Puts the indices of one material behind the indices of a mesh and says
/// which range of the mesh they are. A material without indices adds
/// nothing and has no range.
pub fn append_mesh_range(brush_indices: &mut Vec<u32>, indices: &Vec<u32>) -> (range: Option<
    MeshRange,
>)
    requires
        old(brush_indices)@.len() + indices@.len() <= u32::MAX,
    ensures
        final(brush_indices)@ == old(brush_indices)@ + indices@,
        indices@.len() == 0 ==> range is None,
        indices@.len() > 0 ==> range == Some(
            MeshRange { start: old(brush_indices)@.len() as u32, count: indices@.len() as u32 },
        ),
{
    let ghost before = brush_indices@;
    if indices.len() == 0 {
        proof {
            assert(before + indices@ =~= before);
        }
        return None;
    }
    let offset = brush_indices.len();
    brush_indices.extend_from_slice(indices.as_slice());
    proof {
        assert(brush_indices@ =~= before + indices@);
    }
    let count = brush_indices.len() - offset;
    Some(MeshRange { start: offset as u32, count: count as u32 })
}

} // verus!

//! Elements of the lumps of a level file.

use crate::drawable::Vector3;
use crate::read_util::{le_value, signed, ByteReader, IOError, PrimitiveRead};
use vstd::prelude::*;

verus! {

/// The lumps whose elements are read here.
#[derive(Clone, Copy, Debug, PartialEq, Eq, Structural)]
pub enum LumpType {
    Vertices,
    Edges,
    SurfaceEdges,
}

/// An element of a lump.
pub trait LumpData: Sized {
    /// The lump that holds elements of this kind.
    fn lump_type() -> LumpType;

    /// Bytes in one element in a file of the given version.
    fn element_size(version: i32) -> usize;

    /// Reads one element.
    fn read(reader: &mut ByteReader, version: i32) -> Result<Self, IOError>;
}

/// An edge between two vertices, by their indices.
#[derive(Clone, Copy, Debug, Default)]
pub struct Edge {
    pub vertex_index: [u16; 2],
}

impl LumpData for Edge {
    fn lump_type() -> (lump: LumpType)
        ensures
            lump == LumpType::Edges,
    {
        LumpType::Edges
    }

    fn element_size(_version: i32) -> (size: usize)
        ensures
            size == 4,
    {
        4
    }

    /// Reads the two vertex indices, two bytes each.
    fn read(reader: &mut ByteReader, _version: i32) -> (result: Result<Self, IOError>)
        ensures
            final(reader).bytes() == old(reader).bytes(),
            result is Ok <==> 4 <= old(reader).rest().len(),
            result matches Ok(edge) ==> edge.vertex_index@[0] == le_value(
                old(reader).rest().subrange(0, 2),
            ) && edge.vertex_index@[1] == le_value(old(reader).rest().subrange(2, 4))
                && final(reader).pos() == old(reader).pos() + 4,
            result matches Err(e) ==> e == IOError::UnexpectedEof && final(reader).pos()
                == old(reader).bytes().len(),
    {
        let ghost rest = reader.rest();
        let _ = reader.position();
        let first = match reader.read_u16() {
            Ok(v) => v,
            Err(e) => {
                return Err(e);
            },
        };
        let ghost rest_after = reader.rest();
        proof {
            assert(rest_after =~= rest.skip(2));
        }
        let second = match reader.read_u16() {
            Ok(v) => v,
            Err(e) => {
                return Err(e);
            },
        };
        proof {
            assert(rest.take(2) =~= rest.subrange(0, 2));
            assert(rest_after.take(2) =~= rest.subrange(2, 4));
        }
        Ok(Edge { vertex_index: [first, second] })
    }
}

/// A reference to an edge: its index, negative where the edge is walked
/// from its second vertex to its first.
#[derive(Clone, Copy, Debug, Eq, PartialEq, Hash, PartialOrd, Ord)]
pub struct SurfaceEdge {
    pub index: i32,
}

impl LumpData for SurfaceEdge {
    fn lump_type() -> (lump: LumpType)
        ensures
            lump == LumpType::SurfaceEdges,
    {
        LumpType::SurfaceEdges
    }

    fn element_size(_version: i32) -> (size: usize)
        ensures
            size == 4,
    {
        4
    }

    /// Reads the signed index, four bytes.
    fn read(reader: &mut ByteReader, _version: i32) -> (result: Result<Self, IOError>)
        ensures
            final(reader).bytes() == old(reader).bytes(),
            result is Ok <==> 4 <= old(reader).rest().len(),
            result matches Ok(edge) ==> edge.index == signed(
                le_value(old(reader).rest().take(4)),
                32,
            ) && final(reader).pos() == old(reader).pos() + 4,
            result matches Err(e) ==> e == IOError::UnexpectedEof && final(reader).pos()
                == old(reader).bytes().len(),
    {
        match reader.read_i32() {
            Ok(edge) => Ok(SurfaceEdge { index: edge }),
            Err(e) => Err(e),
        }
    }
}

/// A corner of the level's geometry: three floats, kept as their bit
/// patterns.
#[derive(Clone, Copy, Debug)]
pub struct Vertex {
    pub position: Vector3,
}

impl LumpData for Vertex {
    fn lump_type() -> (lump: LumpType)
        ensures
            lump == LumpType::Vertices,
    {
        LumpType::Vertices
    }

    fn element_size(_version: i32) -> (size: usize)
        ensures
            size == 12,
    {
        12
    }

    /// Reads the three coordinates, four bytes each.
    fn read(reader: &mut ByteReader, _version: i32) -> (result: Result<Self, IOError>)
        ensures
            final(reader).bytes() == old(reader).bytes(),
            result is Ok <==> 12 <= old(reader).rest().len(),
            result matches Ok(vertex) ==> vertex.position.x == le_value(
                old(reader).rest().subrange(0, 4),
            ) && vertex.position.y == le_value(old(reader).rest().subrange(4, 8))
                && vertex.position.z == le_value(old(reader).rest().subrange(8, 12))
                && final(reader).pos() == old(reader).pos() + 12,
            result matches Err(e) ==> e == IOError::UnexpectedEof && final(reader).pos()
                == old(reader).bytes().len(),
    {
        let ghost rest = reader.rest();
        let _ = reader.position();
        let x = match reader.read_u32() {
            Ok(v) => v,
            Err(e) => {
                return Err(e);
            },
        };
        let ghost rest_y = reader.rest();
        proof {
            assert(rest_y =~= rest.skip(4));
        }
        let y = match reader.read_u32() {
            Ok(v) => v,
            Err(e) => {
                return Err(e);
            },
        };
        let ghost rest_z = reader.rest();
        proof {
            assert(rest_z =~= rest.skip(8));
        }
        let z = match reader.read_u32() {
            Ok(v) => v,
            Err(e) => {
                return Err(e);
            },
        };
        proof {
            assert(rest.take(4) =~= rest.subrange(0, 4));
            assert(rest_y.take(4) =~= rest.subrange(4, 8));
            assert(rest_z.take(4) =~= rest.subrange(8, 12));
        }
        Ok(Vertex { position: Vector3 { x, y, z } })
    }
}

} // verus!

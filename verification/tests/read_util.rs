use sourcerenderer::drawable::Vector3;
use sourcerenderer::lump_data::{Edge, LumpData, LumpType, SurfaceEdge, Vertex};
use sourcerenderer::read_util::{ByteReader, IOError, PrimitiveRead, RawDataRead, StringRead, StringReadError};
use sourcerenderer::skin_replacement::{SkinReplacementTable, SkinReplacementTableEntry};

#[test]
fn numbers_are_read_least_significant_byte_first() {
    let mut reader = ByteReader::new(vec![
        0x12, 0x34, 0x12, 0x78, 0x56, 0x34, 0x12, 0xEF, 0xCD, 0xAB, 0x89, 0x67, 0x45, 0x23, 0x01,
    ]);
    assert_eq!(reader.len(), 15);
    assert_eq!(reader.read_u8(), Ok(0x12));
    assert_eq!(reader.read_u16(), Ok(0x1234));
    assert_eq!(reader.read_u32(), Ok(0x12345678));
    assert_eq!(reader.position(), 7);
    assert_eq!(reader.remaining(), 8);
    assert_eq!(reader.read_u64(), Ok(0x0123456789ABCDEF));
    assert_eq!(reader.read_u8(), Err(IOError::UnexpectedEof));
}

#[test]
fn signed_numbers_are_twos_complement() {
    let mut reader = ByteReader::new(vec![
        0xFF, 0x7F, 0x80, 0xFE, 0xFF, 0x00, 0x80, 0xFF, 0xFF, 0xFF, 0xFF, 0x00, 0x00, 0x00, 0x80,
        0xFF, 0xFF, 0xFF, 0xFF, 0xFF, 0xFF, 0xFF, 0xFF, 0x00, 0x00, 0x00, 0x00, 0x00, 0x00, 0x00, 0x80,
        0x2A, 0x00, 0x00, 0x00, 0x00, 0x00, 0x00, 0x00,
    ]);
    assert_eq!(reader.read_i8(), Ok(-1));
    assert_eq!(reader.read_i8(), Ok(127));
    assert_eq!(reader.read_i8(), Ok(-128));
    assert_eq!(reader.read_i16(), Ok(-2));
    assert_eq!(reader.read_i16(), Ok(i16::MIN));
    assert_eq!(reader.read_i32(), Ok(-1));
    assert_eq!(reader.read_i32(), Ok(i32::MIN));
    assert_eq!(reader.read_i64(), Ok(-1));
    assert_eq!(reader.read_i64(), Ok(i64::MIN));
    assert_eq!(reader.read_i64(), Ok(42));
    assert_eq!(reader.read_i16(), Err(IOError::UnexpectedEof));
}

#[test]
fn a_number_that_is_cut_short_fails_and_moves_to_the_end() {
    let mut reader = ByteReader::new(vec![1, 2, 3]);
    assert_eq!(reader.read_u32(), Err(IOError::UnexpectedEof));
    assert_eq!(reader.position(), 3);
    let mut reader = ByteReader::new(vec![1, 2, 3]);
    assert_eq!(reader.read_u64(), Err(IOError::UnexpectedEof));
    let mut reader = ByteReader::new(vec![1]);
    assert_eq!(reader.read_u16(), Err(IOError::UnexpectedEof));
    assert_eq!(reader.read_i32(), Err(IOError::UnexpectedEof));
}

#[test]
fn raw_data_is_read_as_it_stands() {
    let mut reader = ByteReader::new(vec![1, 2, 3, 4, 5]);
    assert_eq!(reader.read_data(2), Ok(vec![1, 2]));
    assert_eq!(reader.read_data(0), Ok(vec![]));
    assert_eq!(reader.read_exact(2), Ok(vec![3, 4]));
    assert_eq!(reader.read_data(2), Err(IOError::UnexpectedEof));
    assert_eq!(reader.position(), 5);
}

#[test]
fn a_short_read_leaves_zero_bytes() {
    let mut reader = ByteReader::new(vec![1, 2, 3]);
    assert_eq!(reader.read(2), vec![1, 2]);
    assert_eq!(reader.read(3), vec![3, 0, 0]);
    assert_eq!(reader.position(), 3);
    assert_eq!(reader.read(2), vec![0, 0]);
    reader.seek(1);
    assert_eq!(reader.read(1), vec![2]);
    reader.seek(100);
    assert_eq!(reader.position(), 3);
    reader.seek(0);
    reader.skip(2);
    assert_eq!(reader.position(), 2);
    reader.skip(usize::MAX);
    assert_eq!(reader.position(), 3);
}

#[test]
fn strings_end_at_the_zero_byte() {
    let mut reader = ByteReader::new(b"models\0\0gr\xC3\xBC\xC3\x9F\0tail".to_vec());
    assert_eq!(reader.read_null_terminated_string().unwrap(), "models");
    assert_eq!(reader.position(), 7);
    assert_eq!(reader.read_null_terminated_string().unwrap(), "");
    assert_eq!(reader.read_null_terminated_string().unwrap(), "grüß");
    match reader.read_null_terminated_string() {
        Err(StringReadError::IOError(IOError::UnexpectedEof)) => {}
        other => panic!("{:?}", other),
    }
    assert_eq!(reader.position(), reader.len());
}

#[test]
fn bytes_that_are_not_utf8_are_handed_back() {
    let mut reader = ByteReader::new(vec![b'a', 0xFF, b'b', 0, b'c', 0]);
    match reader.read_null_terminated_string() {
        Err(StringReadError::StringConstructionError(bytes)) => assert_eq!(bytes, vec![b'a', 0xFF, b'b']),
        other => panic!("{:?}", other),
    }
    assert_eq!(reader.read_null_terminated_string().unwrap(), "c");
}

#[test]
fn an_edge_is_two_vertex_indices() {
    assert_eq!(Edge::lump_type(), LumpType::Edges);
    assert_eq!(Edge::element_size(20), 4);
    let mut reader = ByteReader::new(vec![0x01, 0x02, 0xFF, 0xFF, 9]);
    let edge = Edge::read(&mut reader, 20).unwrap();
    assert_eq!(edge.vertex_index, [0x0201, 0xFFFF]);
    assert_eq!(reader.position(), 4);
    assert!(matches!(Edge::read(&mut reader, 20), Err(IOError::UnexpectedEof)));
    let mut short = ByteReader::new(vec![1, 2, 3]);
    assert!(Edge::read(&mut short, 20).is_err());
}

#[test]
fn a_surface_edge_is_a_signed_index() {
    assert_eq!(SurfaceEdge::lump_type(), LumpType::SurfaceEdges);
    assert_eq!(SurfaceEdge::element_size(20), 4);
    let mut reader = ByteReader::new(vec![0xFE, 0xFF, 0xFF, 0xFF, 5, 0, 0, 0]);
    assert_eq!(SurfaceEdge::read(&mut reader, 20).unwrap(), SurfaceEdge { index: -2 });
    assert_eq!(SurfaceEdge::read(&mut reader, 20).unwrap(), SurfaceEdge { index: 5 });
    assert!(SurfaceEdge::read(&mut reader, 20).is_err());
}

#[test]
fn a_vertex_is_three_floats() {
    assert_eq!(Vertex::lump_type(), LumpType::Vertices);
    assert_eq!(Vertex::element_size(20), 12);
    let mut bytes = Vec::new();
    for v in [1.5f32, -2.0f32, 0.25f32] {
        bytes.extend_from_slice(&v.to_le_bytes());
    }
    let mut reader = ByteReader::new(bytes);
    let vertex = Vertex::read(&mut reader, 20).unwrap();
    assert_eq!(
        vertex.position,
        Vector3 { x: 1.5f32.to_bits(), y: (-2.0f32).to_bits(), z: 0.25f32.to_bits() }
    );
    let mut short = ByteReader::new(vec![0; 11]);
    assert!(Vertex::read(&mut short, 20).is_err());
}

#[test]
fn a_skin_table_has_a_row_for_each_four_bytes() {
    let mut reader = ByteReader::new(vec![1, 0, 2, 0, 3, 0, 4, 1, 9, 9]);
    let table = SkinReplacementTable::read(&mut reader, 2, 2).unwrap();
    assert_eq!(table.len(), 2);
    assert_eq!(table.get(0), Some(SkinReplacementTableEntry { main_body: 1, trimming: 2 }));
    assert_eq!(table.get(1), Some(SkinReplacementTableEntry { main_body: 3, trimming: 0x0104 }));
    assert_eq!(table.get(2), None);
    assert_eq!(reader.position(), 8);
    let mut empty = ByteReader::new(vec![]);
    assert_eq!(SkinReplacementTable::read(&mut empty, 0, 7).unwrap().len(), 0);
}

#[test]
fn a_skin_table_that_ends_in_the_middle_of_a_row_fails() {
    let mut reader = ByteReader::new(vec![1, 0, 2, 0, 3, 0, 4, 0]);
    assert!(matches!(SkinReplacementTable::read(&mut reader, 3, 1), Err(IOError::UnexpectedEof)));
    assert_eq!(reader.position(), 6);
    let mut short = ByteReader::new(vec![1, 0, 2]);
    assert!(matches!(SkinReplacementTable::read(&mut short, 1, 2), Err(IOError::UnexpectedEof)));
}

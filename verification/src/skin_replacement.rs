//! The table that says which materials stand in for a model's materials
//! under each of its skins.

use crate::read_util::{le_value, ByteReader, IOError, PrimitiveRead};
use std::collections::HashMap;
use vstd::prelude::*;

verus! {

/// One row of the table.
#[derive(Clone, Copy, Debug, PartialEq, Eq)]
pub struct SkinReplacementTableEntry {
    pub main_body: u16,
    pub trimming: u16,
}

/// The rows of the table, by their number.
#[derive(Debug)]
pub struct SkinReplacementTable {
    table: HashMap<u16, SkinReplacementTableEntry>,
}

/// The row that stands in `data` at row number `row`: two numbers of two
/// bytes each.
pub open spec fn row_at(data: Seq<u8>, row: int) -> SkinReplacementTableEntry {
    SkinReplacementTableEntry {
        main_body: le_value(data.subrange(4 * row, 4 * row + 2)) as u16,
        trimming: le_value(data.subrange(4 * row + 2, 4 * row + 4)) as u16,
    }
}

/// The table that the bytes of `data` spell: one row for each four bytes.
pub open spec fn table_of(data: Seq<u8>) -> Map<u16, SkinReplacementTableEntry> {
    Map::new(|row: u16| 4 * row + 4 <= data.len(), |row: u16| row_at(data, row as int))
}

/// Bytes in the table of a model with the given numbers of skin families
/// and of skins.
pub open spec fn table_bytes(skin_families_count: i32, skins_count: i32) -> int {
    skin_families_count * skins_count * 2
}

impl View for SkinReplacementTable {
    type V = Map<u16, SkinReplacementTableEntry>;

    closed spec fn view(&self) -> Map<u16, SkinReplacementTableEntry> {
        self.table@
    }
}

impl SkinReplacementTable {
    /// The row with the given number.
    pub fn get(&self, row: u16) -> (entry: Option<SkinReplacementTableEntry>)
        ensures
            entry is Some <==> self@.dom().contains(row),
            entry matches Some(e) ==> e == self@[row],
    {
        broadcast use vstd::std_specs::hash::group_hash_axioms;

        match self.table.get(&row) {
            Some(e) => Some(*e),
            None => None,
        }
    }

    /// Number of rows.
    pub fn len(&self) -> (len: usize)
        ensures
            len == self@.len(),
    {
        broadcast use vstd::std_specs::hash::group_hash_axioms;

        self.table.len()
    }

    /// Reads the table of a model: two bytes for each skin of each family,
    /// which are then taken as rows of four bytes. The read fails if the
    /// bytes end before the table does, or if the table ends in the middle
    /// of a row.
    #[verifier::loop_isolation(false)]
    pub fn read(reader: &mut ByteReader, skin_families_count: i32, skins_count: i32) -> (result:
        Result<Self, IOError>)
        requires
            0 <= table_bytes(skin_families_count, skins_count) <= i32::MAX,
            0 <= skin_families_count * skins_count <= i32::MAX,
            table_bytes(skin_families_count, skins_count) / 4 <= u16::MAX,
        ensures
            final(reader).bytes() == old(reader).bytes(),
            result is Ok <==> table_bytes(skin_families_count, skins_count)
                <= old(reader).rest().len() && table_bytes(skin_families_count, skins_count) % 4
                == 0,
            result matches Err(e) ==> e == IOError::UnexpectedEof,
            result matches Ok(table) ==> table@ == table_of(
                old(reader).rest().take(table_bytes(skin_families_count, skins_count)),
            ),
            table_bytes(skin_families_count, skins_count) <= old(reader).rest().len()
                ==> final(reader).pos() == old(reader).pos() + table_bytes(
                skin_families_count,
                skins_count,
            ),
    {
        broadcast use vstd::std_specs::hash::group_hash_axioms;

        let len = (skin_families_count * skins_count * 2) as usize;
        let data = match reader.read_exact(len) {
            Ok(data) => data,
            Err(e) => {
                return Err(e);
            },
        };
        let mut table: HashMap<u16, SkinReplacementTableEntry> = HashMap::new();
        let mut i: u16 = 0;
        let mut cursor: usize = 0;
        while len - cursor >= 2
            invariant
                cursor == 4 * i,
                cursor <= len,
                len == data@.len(),
                len / 4 <= u16::MAX,
                table@.dom() =~= Set::new(|row: u16| row < i),
                forall|row: u16| row < i ==> table@[row] == row_at(data@, row as int),
            decreases len - cursor,
        {
            proof {
                crate::read_util::lemma_le_value_2(data@.subrange(4 * i, 4 * i + 2));
            }
            let main_body = data[cursor] as u16 + 256 * (data[cursor + 1] as u16);
            if len - cursor < 4 {
                return Err(IOError::UnexpectedEof);
            }
            proof {
                crate::read_util::lemma_le_value_2(data@.subrange(4 * i + 2, 4 * i + 4));
            }
            let trimming = data[cursor + 2] as u16 + 256 * (data[cursor + 3] as u16);
            table.insert(i, SkinReplacementTableEntry { main_body, trimming });
            i = i + 1;
            cursor = cursor + 4;
        }
        proof {
            assert(table@ =~= table_of(data@));
        }
        Ok(SkinReplacementTable { table })
    }
}

} // verus!

//! Packages of game files in the VPK format: the header, the tree of
//! entries, and the sections with checksums and a signature that follow
//! in the second version of the format. A package is read from bytes in
//! memory.

use crate::read_util::{
    has_terminator,
    le_value,
    terminated,
    terminator,
    ByteReader,
    IOError,
    PrimitiveRead,
    StringRead,
    StringReadError,
};
use crate::vtf_loader::{bytes_end_with, ends_with};
use vstd::prelude::*;
use vstd::slice::slice_subrange;
use vstd::string::{StringExecFns, StringSliceAdditionalSpecFns};
use vstd::utf8::{decode_utf8, encode_utf8, is_char_boundary, valid_utf8};

verus! {

/// Why a package could not be read.
#[derive(Debug)]
pub enum PackageError {
    /// The bytes could not be read.
    IOError(IOError),
    /// The bytes are not what the format asks for; the text says why.
    FileError(String),
}

/// The number that every package starts with.
pub const MAGIC: u32 = 0x55AA1234;

/// What separates the directories of a path.
pub const DIRECTORY_SEPARATOR: &'static str = "/";

/// The archive index of an entry whose content stands in the package
/// itself.
pub const LOCAL_ARCHIVE: u16 = 0x7FFF;

/// What ends each entry of the tree.
pub const ENTRY_TERMINATOR: u16 = 0xFFFF;

/// Bytes in an entry of the section of archive checksums.
pub const ARCHIVE_MD5_ENTRY_SIZE: u32 = 28;

/// An entry as a value.
pub struct EntryView {
    pub file_name: Seq<char>,
    pub directory_name: Seq<char>,
    pub file_type: Seq<char>,
    pub crc32: u32,
    pub small_data: Seq<u8>,
    pub archive_index: u16,
    pub offset: u32,
    pub len: u32,
}

/// A file of a package.
#[derive(Debug)]
pub struct PackageEntry {
    pub file_name: String,
    pub directory_name: String,
    pub file_type: String,
    pub crc32: u32,
    pub small_data: Vec<u8>,
    pub archive_index: u16,
    pub offset: u32,
    pub len: u32,
}

impl View for PackageEntry {
    type V = EntryView;

    open spec fn view(&self) -> EntryView {
        EntryView {
            file_name: self.file_name@,
            directory_name: self.directory_name@,
            file_type: self.file_type@,
            crc32: self.crc32,
            small_data: self.small_data@,
            archive_index: self.archive_index,
            offset: self.offset,
            len: self.len,
        }
    }
}

/// The entries of one file type as a value.
pub struct TypeView {
    pub file_type: Seq<char>,
    pub entries: Seq<EntryView>,
}

/// The entries of one file type.
#[derive(Debug)]
pub struct TypeEntries {
    pub file_type: String,
    pub entries: Vec<PackageEntry>,
}

impl View for TypeEntries {
    type V = TypeView;

    open spec fn view(&self) -> TypeView {
        TypeView {
            file_type: self.file_type@,
            entries: self.entries@.map_values(|e: PackageEntry| e@),
        }
    }
}

/// The checksum of a stretch of an archive.
#[derive(Debug)]
pub struct ArchiveMD5SectionEntry {
    pub archive_index: u32,
    pub offset: u32,
    pub length: u32,
    pub checksum: Vec<u8>,
}

/// How reading a part of a package can go wrong.
pub enum Fault {
    /// The bytes ended too early.
    Eof,
    /// A name is not UTF-8.
    BadName,
    /// An entry does not end with its terminator.
    BadTerminator,
    /// The bytes do not start with the number of a package.
    NotVpk,
    /// The version is neither one nor two.
    BadVersion(u32),
    /// The section of checksums is not 48 bytes long.
    BadChecksumSection(u32),
}

/// A name read at `pos`, and where reading goes on.
pub open spec fn name_at(bytes: Seq<u8>, pos: int) -> Result<(Seq<char>, int), Fault> {
    if !has_terminator(bytes, pos) {
        Err(Fault::Eof)
    } else if !valid_utf8(terminated(bytes, pos)) {
        Err(Fault::BadName)
    } else {
        Ok((decode_utf8(terminated(bytes, pos)), terminator(bytes, pos) + 1))
    }
}

/// The number of `width` bytes that stands at `pos`.
pub open spec fn number_at(bytes: Seq<u8>, pos: int, width: int) -> nat {
    le_value(bytes.subrange(pos, pos + width))
}

/// The `len` bytes that a read at `pos` gives: the bytes that are there,
/// filled up with zero bytes where the bytes end.
pub open spec fn filled_at(bytes: Seq<u8>, pos: int, len: int) -> Seq<u8> {
    Seq::new(
        len as nat,
        |i: int|
            if pos + i < bytes.len() {
                bytes[pos + i]
            } else {
                0u8
            },
    )
}

/// Where reading goes on after `len` bytes were asked for at `pos`.
pub open spec fn after_fill(bytes: Seq<u8>, pos: int, len: int) -> int {
    if pos + len <= bytes.len() {
        pos + len
    } else {
        bytes.len() as int
    }
}

/// The entry of the file `file_name` whose fields start at `pos`, and where
/// reading goes on: the checksum, the length of the data that stands with
/// the entry, the archive, the offset and the length, the terminator, and
/// then that data.
pub open spec fn entry_at(
    bytes: Seq<u8>,
    pos: int,
    file_type: Seq<char>,
    directory_name: Seq<char>,
    file_name: Seq<char>,
) -> Result<(EntryView, int), Fault> {
    if pos + 18 > bytes.len() {
        Err(Fault::Eof)
    } else if number_at(bytes, pos + 16, 2) != ENTRY_TERMINATOR {
        Err(Fault::BadTerminator)
    } else {
        let small = number_at(bytes, pos + 4, 2) as int;
        Ok(
            (
                EntryView {
                    file_name,
                    directory_name,
                    file_type,
                    crc32: number_at(bytes, pos, 4) as u32,
                    small_data: filled_at(bytes, pos + 18, small),
                    archive_index: number_at(bytes, pos + 6, 2) as u16,
                    offset: number_at(bytes, pos + 8, 4) as u32,
                    len: number_at(bytes, pos + 12, 4) as u32,
                },
                after_fill(bytes, pos + 18, small),
            ),
        )
    }
}

/// The files of one directory from `pos` on, behind the entries of `acc`,
/// up to the empty name that ends them.
pub open spec fn files_at(
    bytes: Seq<u8>,
    pos: int,
    file_type: Seq<char>,
    directory_name: Seq<char>,
    acc: Seq<EntryView>,
) -> Result<(Seq<EntryView>, int), Fault>
    decreases bytes.len() - pos,
{
    match name_at(bytes, pos) {
        Err(fault) => Err(fault),
        Ok((file_name, next)) => if file_name.len() == 0 {
            Ok((acc, next))
        } else {
            match entry_at(bytes, next, file_type, directory_name, file_name) {
                Err(fault) => Err(fault),
                Ok((entry, behind)) => if pos < behind <= bytes.len() && pos >= 0 {
                    files_at(bytes, behind, file_type, directory_name, acc.push(entry))
                } else {
                    Err(Fault::Eof)
                },
            }
        },
    }
}

/// The files of the directories of one type from `pos` on, behind the
/// entries of `acc`, up to the empty name that ends them.
pub open spec fn directories_at(bytes: Seq<u8>, pos: int, file_type: Seq<char>, acc: Seq<EntryView>)
    -> Result<(Seq<EntryView>, int), Fault>
    decreases bytes.len() - pos,
{
    match name_at(bytes, pos) {
        Err(fault) => Err(fault),
        Ok((directory_name, next)) => if directory_name.len() == 0 {
            Ok((acc, next))
        } else {
            match files_at(bytes, next, file_type, directory_name, acc) {
                Err(fault) => Err(fault),
                Ok((entries, behind)) => if pos < behind <= bytes.len() && pos >= 0 {
                    directories_at(bytes, behind, file_type, entries)
                } else {
                    Err(Fault::Eof)
                },
            }
        },
    }
}

/// The types after the entries of type `name` were read: they take the
/// place of the entries that the type had, or go behind the other types.
pub open spec fn with_type(types: Seq<TypeView>, name: Seq<char>, entries: Seq<EntryView>) -> Seq<
    TypeView,
> {
    let at = type_index(types, name, 0);
    if at < types.len() {
        types.update(at, TypeView { file_type: name, entries })
    } else {
        types.push(TypeView { file_type: name, entries })
    }
}

/// The index of the first type at or after `from` with the given name, or
/// the number of types.
pub open spec fn type_index(types: Seq<TypeView>, name: Seq<char>, from: int) -> int
    decreases types.len() - from,
{
    if from < 0 || from >= types.len() {
        types.len() as int
    } else if types[from].file_type == name {
        from
    } else {
        type_index(types, name, from + 1)
    }
}

/// The tree from `pos` on, behind the types of `acc`, up to the empty name
/// that ends it.
pub open spec fn types_at(bytes: Seq<u8>, pos: int, acc: Seq<TypeView>) -> Result<
    (Seq<TypeView>, int),
    Fault,
>
    decreases bytes.len() - pos,
{
    match name_at(bytes, pos) {
        Err(fault) => Err(fault),
        Ok((file_type, next)) => if file_type.len() == 0 {
            Ok((acc, next))
        } else {
            match directories_at(bytes, next, file_type, Seq::empty()) {
                Err(fault) => Err(fault),
                Ok((entries, behind)) => if pos < behind <= bytes.len() && pos >= 0 {
                    types_at(bytes, behind, with_type(acc, file_type, entries))
                } else {
                    Err(Fault::Eof)
                },
            }
        },
    }
}

/// Whether `error` tells of `fault`: the end of the bytes is an error of
/// reading, anything else an error of the file that says in words what is
/// wrong.
pub open spec fn tells(error: PackageError, fault: Fault) -> bool {
    match fault {
        Fault::Eof => error matches PackageError::IOError(e) && e == IOError::UnexpectedEof,
        Fault::BadName => error matches PackageError::FileError(m) && m@
            == "Failed to read type name"@,
        Fault::BadTerminator => error matches PackageError::FileError(m) && m@
            == "Invalid terminator."@,
        Fault::NotVpk => error matches PackageError::FileError(m) && m@
            == "Given file is not a VPK."@,
        Fault::BadVersion(version) => error matches PackageError::FileError(m) && m@
            == "Bad VPK version: "@ + decimal(version as nat),
        Fault::BadChecksumSection(size) => error matches PackageError::FileError(m) && m@
            == "Encountered OtherMD5Section with size of "@ + decimal(size as nat)
            + " (should be 48)"@,
    }
}

/// The words for a name that could not be read.
fn bad_name() -> (message: String)
    ensures
        message@ == "Failed to read type name"@,
{
    "Failed to read type name".to_string()
}

/// Reads a name.
fn read_name(input: &mut ByteReader) -> (result: Result<String, PackageError>)
    ensures
        final(input).bytes() == old(input).bytes(),
        final(input).pos() <= final(input).bytes().len(),
        match name_at(old(input).bytes(), old(input).pos()) {
            Ok((name, next)) => result matches Ok(s) && s@ == name && final(input).pos() == next,
            Err(fault) => result matches Err(e) && tells(e, fault),
        },
{
    let _ = input.position();
    match input.read_null_terminated_string() {
        Ok(s) => Ok(s),
        Err(StringReadError::IOError(e)) => Err(PackageError::IOError(e)),
        Err(StringReadError::StringConstructionError(_)) => Err(PackageError::FileError(bad_name())),
    }
}

/// The number that a read of a number hands on, or the error of reading.
fn number<T>(read: Result<T, IOError>) -> (result: Result<T, PackageError>)
    ensures
        read matches Ok(v) ==> result == Ok::<T, PackageError>(v),
        read matches Err(e) ==> result == Err::<T, PackageError>(PackageError::IOError(e)),
{
    match read {
        Ok(v) => Ok(v),
        Err(e) => Err(PackageError::IOError(e)),
    }
}

/// Reads the fields of an entry behind its file name.
#[verifier::loop_isolation(false)]
fn read_entry_fields(
    input: &mut ByteReader,
    file_type: &String,
    directory_name: &String,
    file_name: String,
) -> (result: Result<PackageEntry, PackageError>)
    ensures
        final(input).bytes() == old(input).bytes(),
        final(input).pos() <= final(input).bytes().len(),
        match entry_at(old(input).bytes(), old(input).pos(), file_type@, directory_name@, file_name@) {
            Ok((entry, next)) => result matches Ok(e) && e@ == entry && final(input).pos() == next,
            Err(fault) => result matches Err(e) && tells(e, fault),
        },
{
    let ghost bytes = input.bytes();
    let ghost pos = input.pos();
    let _ = input.position();
    proof {
        if pos + 4 <= bytes.len() {
            assert(bytes.skip(pos).take(4) =~= bytes.subrange(pos, pos + 4));
        }
    }
    let crc32 = match number(input.read_u32()) {
        Ok(v) => v,
        Err(e) => {
            return Err(e);
        },
    };
    proof {
        if pos + 6 <= bytes.len() {
            assert(bytes.skip(pos + 4).take(2) =~= bytes.subrange(pos + 4, pos + 6));
        }
    }
    let small_len = match number(input.read_u16()) {
        Ok(v) => v,
        Err(e) => {
            return Err(e);
        },
    };
    proof {
        if pos + 8 <= bytes.len() {
            assert(bytes.skip(pos + 6).take(2) =~= bytes.subrange(pos + 6, pos + 8));
        }
    }
    let archive_index = match number(input.read_u16()) {
        Ok(v) => v,
        Err(e) => {
            return Err(e);
        },
    };
    proof {
        if pos + 12 <= bytes.len() {
            assert(bytes.skip(pos + 8).take(4) =~= bytes.subrange(pos + 8, pos + 12));
        }
    }
    let offset = match number(input.read_u32()) {
        Ok(v) => v,
        Err(e) => {
            return Err(e);
        },
    };
    proof {
        if pos + 16 <= bytes.len() {
            assert(bytes.skip(pos + 12).take(4) =~= bytes.subrange(pos + 12, pos + 16));
        }
    }
    let len = match number(input.read_u32()) {
        Ok(v) => v,
        Err(e) => {
            return Err(e);
        },
    };
    proof {
        if pos + 18 <= bytes.len() {
            assert(bytes.skip(pos + 16).take(2) =~= bytes.subrange(pos + 16, pos + 18));
        }
    }
    let end = match number(input.read_u16()) {
        Ok(v) => v,
        Err(e) => {
            return Err(e);
        },
    };
    if end != ENTRY_TERMINATOR {
        return Err(PackageError::FileError(invalid_terminator()));
    }
    let small_data = input.read(small_len as usize);
    proof {
        assert(small_data@ =~= filled_at(bytes, pos + 18, small_len as int));
    }
    Ok(
        PackageEntry {
            file_name,
            directory_name: directory_name.clone(),
            file_type: file_type.clone(),
            crc32,
            small_data,
            archive_index,
            offset,
            len,
        },
    )
}

/// The words for an entry without its terminator.
fn invalid_terminator() -> (message: String)
    ensures
        message@ == "Invalid terminator."@,
{
    "Invalid terminator.".to_string()
}

/// Reads the files of one directory and puts them behind `entries`.
#[verifier::loop_isolation(false)]
fn read_files(
    input: &mut ByteReader,
    file_type: &String,
    directory_name: &String,
    entries: &mut Vec<PackageEntry>,
) -> (result: Result<(), PackageError>)
    ensures
        final(input).bytes() == old(input).bytes(),
        final(input).pos() <= final(input).bytes().len(),
        match files_at(
            old(input).bytes(),
            old(input).pos(),
            file_type@,
            directory_name@,
            old(entries)@.map_values(|e: PackageEntry| e@),
        ) {
            Ok((all, next)) => result is Ok && final(entries)@.map_values(|e: PackageEntry| e@)
                == all && final(input).pos() == next,
            Err(fault) => result matches Err(e) && tells(e, fault),
        },
{
    let ghost bytes = input.bytes();
    let ghost goal = files_at(
        bytes,
        input.pos(),
        file_type@,
        directory_name@,
        entries@.map_values(|e: PackageEntry| e@),
    );
    let _ = input.position();
    loop
        invariant
            input.bytes() == bytes,
            0 <= input.pos() <= bytes.len(),
            goal == files_at(
                bytes,
                input.pos(),
                file_type@,
                directory_name@,
                entries@.map_values(|e: PackageEntry| e@),
            ),
        decreases bytes.len() - input.pos(),
    {
        let ghost pos = input.pos();
        let ghost held = entries@.map_values(|e: PackageEntry| e@);
        let file_name = match read_name(input) {
            Ok(s) => s,
            Err(e) => {
                return Err(e);
            },
        };
        if file_name.as_str().is_empty() {
            return Ok(());
        }
        proof {
            lemma_name_moves_on(bytes, pos);
        }
        let entry = match read_entry_fields(input, file_type, directory_name, file_name) {
            Ok(entry) => entry,
            Err(e) => {
                return Err(e);
            },
        };
        proof {
            assert(entries@.push(entry).map_values(|e: PackageEntry| e@) =~= held.push(entry@));
            lemma_entry_moves_on(
                bytes,
                terminator(bytes, pos) + 1,
                file_type@,
                directory_name@,
                entry@.file_name,
            );
        }
        entries.push(entry);
    }
}

/// A name that was read lies before the place where reading goes on.
pub proof fn lemma_name_moves_on(bytes: Seq<u8>, pos: int)
    requires
        0 <= pos <= bytes.len(),
        name_at(bytes, pos) is Ok,
    ensures
        pos < name_at(bytes, pos)->Ok_0.1 <= bytes.len(),
{
    lemma_terminator(bytes, pos);
}

/// [`terminator`] finds the first zero byte at or after `from`.
pub proof fn lemma_terminator(bytes: Seq<u8>, from: int)
    requires
        0 <= from <= bytes.len(),
    ensures
        from <= terminator(bytes, from) <= bytes.len(),
    decreases bytes.len() - from,
{
    if from < bytes.len() && bytes[from] != 0 {
        lemma_terminator(bytes, from + 1);
    }
}

/// An entry that was read lies before the place where reading goes on.
pub proof fn lemma_entry_moves_on(
    bytes: Seq<u8>,
    pos: int,
    file_type: Seq<char>,
    directory_name: Seq<char>,
    file_name: Seq<char>,
)
    requires
        0 <= pos <= bytes.len(),
        entry_at(bytes, pos, file_type, directory_name, file_name) is Ok,
    ensures
        pos < entry_at(bytes, pos, file_type, directory_name, file_name)->Ok_0.1 <= bytes.len(),
{
}

/// Reads the directories of one type and puts their files behind
/// `entries`.
#[verifier::loop_isolation(false)]
fn read_directories(input: &mut ByteReader, file_type: &String, entries: &mut Vec<PackageEntry>) -> (result:
    Result<(), PackageError>)
    ensures
        final(input).bytes() == old(input).bytes(),
        final(input).pos() <= final(input).bytes().len(),
        match directories_at(
            old(input).bytes(),
            old(input).pos(),
            file_type@,
            old(entries)@.map_values(|e: PackageEntry| e@),
        ) {
            Ok((all, next)) => result is Ok && final(entries)@.map_values(|e: PackageEntry| e@)
                == all && final(input).pos() == next,
            Err(fault) => result matches Err(e) && tells(e, fault),
        },
{
    let ghost bytes = input.bytes();
    let ghost goal = directories_at(
        bytes,
        input.pos(),
        file_type@,
        entries@.map_values(|e: PackageEntry| e@),
    );
    let _ = input.position();
    loop
        invariant
            input.bytes() == bytes,
            0 <= input.pos() <= bytes.len(),
            goal == directories_at(
                bytes,
                input.pos(),
                file_type@,
                entries@.map_values(|e: PackageEntry| e@),
            ),
        decreases bytes.len() - input.pos(),
    {
        let ghost pos = input.pos();
        let directory_name = match read_name(input) {
            Ok(s) => s,
            Err(e) => {
                return Err(e);
            },
        };
        if directory_name.as_str().is_empty() {
            return Ok(());
        }
        proof {
            lemma_name_moves_on(bytes, pos);
        }
        let ghost held = entries@.map_values(|e: PackageEntry| e@);
        match read_files(input, file_type, &directory_name, entries) {
            Ok(()) => {},
            Err(e) => {
                return Err(e);
            },
        }
        proof {
            lemma_files_move_on(bytes, terminator(bytes, pos) + 1, file_type@, directory_name@, held);
        }
    }
}

/// The files of a directory that were read lie before the place where
/// reading goes on.
pub proof fn lemma_files_move_on(
    bytes: Seq<u8>,
    pos: int,
    file_type: Seq<char>,
    directory_name: Seq<char>,
    acc: Seq<EntryView>,
)
    requires
        0 <= pos <= bytes.len(),
        files_at(bytes, pos, file_type, directory_name, acc) is Ok,
    ensures
        pos < files_at(bytes, pos, file_type, directory_name, acc)->Ok_0.1 <= bytes.len(),
    decreases bytes.len() - pos,
{
    lemma_name_moves_on(bytes, pos);
    let (file_name, next) = name_at(bytes, pos)->Ok_0;
    if file_name.len() != 0 {
        lemma_entry_moves_on(bytes, next, file_type, directory_name, file_name);
        let (entry, behind) = entry_at(bytes, next, file_type, directory_name, file_name)->Ok_0;
        lemma_files_move_on(bytes, behind, file_type, directory_name, acc.push(entry));
    }
}

/// The directories of a type that were read lie before the place where
/// reading goes on.
pub proof fn lemma_directories_move_on(
    bytes: Seq<u8>,
    pos: int,
    file_type: Seq<char>,
    acc: Seq<EntryView>,
)
    requires
        0 <= pos <= bytes.len(),
        directories_at(bytes, pos, file_type, acc) is Ok,
    ensures
        pos < directories_at(bytes, pos, file_type, acc)->Ok_0.1 <= bytes.len(),
    decreases bytes.len() - pos,
{
    lemma_name_moves_on(bytes, pos);
    let (directory_name, next) = name_at(bytes, pos)->Ok_0;
    if directory_name.len() != 0 {
        lemma_files_move_on(bytes, next, file_type, directory_name, acc);
        let (entries, behind) = files_at(bytes, next, file_type, directory_name, acc)->Ok_0;
        lemma_directories_move_on(bytes, behind, file_type, entries);
    }
}

/// Puts the entries of the type `file_type` among `types`, in place of the
/// entries that the type had.
fn insert_type(types: &mut Vec<TypeEntries>, file_type: String, entries: Vec<PackageEntry>)
    ensures
        final(types)@.map_values(|t: TypeEntries| t@) == with_type(
            old(types)@.map_values(|t: TypeEntries| t@),
            file_type@,
            entries@.map_values(|e: PackageEntry| e@),
        ),
{
    let ghost before = types@.map_values(|t: TypeEntries| t@);
    let mut at: usize = 0;
    while at < types.len() && types[at].file_type != file_type
        invariant
            at <= types@.len(),
            before == types@.map_values(|t: TypeEntries| t@),
            type_index(before, file_type@, 0) == type_index(before, file_type@, at as int),
        decreases types@.len() - at,
    {
        at = at + 1;
    }
    let added = TypeEntries { file_type, entries };
    if at < types.len() {
        types[at] = added;
        proof {
            assert(types@.map_values(|t: TypeEntries| t@) =~= before.update(at as int, added@));
        }
    } else {
        types.push(added);
        proof {
            assert(types@.map_values(|t: TypeEntries| t@) =~= before.push(added@));
        }
    }
}

/// Reads the tree of a package: for each file type its directories, for
/// each directory its files, each list ended by an empty name.
#[verifier::loop_isolation(false)]
pub fn read_entries(input: &mut ByteReader) -> (result: Result<Vec<TypeEntries>, PackageError>)
    ensures
        final(input).bytes() == old(input).bytes(),
        final(input).pos() <= final(input).bytes().len(),
        match types_at(old(input).bytes(), old(input).pos(), Seq::empty()) {
            Ok((all, next)) => result matches Ok(types) && types@.map_values(|t: TypeEntries| t@)
                == all && final(input).pos() == next,
            Err(fault) => result matches Err(e) && tells(e, fault),
        },
{
    let ghost bytes = input.bytes();
    let ghost goal = types_at(bytes, input.pos(), Seq::empty());
    let _ = input.position();
    let mut type_entries: Vec<TypeEntries> = Vec::new();
    proof {
        assert(type_entries@.map_values(|t: TypeEntries| t@) =~= Seq::<TypeView>::empty());
    }
    loop
        invariant
            input.bytes() == bytes,
            0 <= input.pos() <= bytes.len(),
            goal == types_at(bytes, input.pos(), type_entries@.map_values(|t: TypeEntries| t@)),
        decreases bytes.len() - input.pos(),
    {
        let ghost pos = input.pos();
        let file_type = match read_name(input) {
            Ok(s) => s,
            Err(e) => {
                return Err(e);
            },
        };
        if file_type.as_str().is_empty() {
            return Ok(type_entries);
        }
        proof {
            lemma_name_moves_on(bytes, pos);
        }
        let mut entries: Vec<PackageEntry> = Vec::new();
        proof {
            assert(entries@.map_values(|e: PackageEntry| e@) =~= Seq::<EntryView>::empty());
        }
        match read_directories(input, &file_type, &mut entries) {
            Ok(()) => {},
            Err(e) => {
                return Err(e);
            },
        }
        proof {
            lemma_directories_move_on(bytes, terminator(bytes, pos) + 1, file_type@, Seq::empty());
        }
        insert_type(&mut type_entries, file_type, entries);
    }
}

/// The header of a package as a value.
pub struct HeaderView {
    pub version: u32,
    pub tree_size: u32,
    pub file_data_section_size: u32,
    pub archive_md5_section_size: u32,
    pub other_md5_section_size: u32,
    pub signature_section_size: u32,
    pub header_size: u32,
}

/// The header that `bytes` start with: the number of a package, the
/// version, the size of the tree, and in the second version the sizes of
/// the four sections behind the tree.
pub open spec fn header_of(bytes: Seq<u8>) -> Result<HeaderView, Fault> {
    if bytes.len() < 4 {
        Err(Fault::Eof)
    } else if number_at(bytes, 0, 4) != MAGIC {
        Err(Fault::NotVpk)
    } else if bytes.len() < 12 {
        Err(Fault::Eof)
    } else if number_at(bytes, 4, 4) == 1 {
        Ok(
            HeaderView {
                version: 1,
                tree_size: number_at(bytes, 8, 4) as u32,
                file_data_section_size: 0,
                archive_md5_section_size: 0,
                other_md5_section_size: 0,
                signature_section_size: 0,
                header_size: 12,
            },
        )
    } else if number_at(bytes, 4, 4) != 2 {
        Err(Fault::BadVersion(number_at(bytes, 4, 4) as u32))
    } else if bytes.len() < 28 {
        Err(Fault::Eof)
    } else {
        Ok(
            HeaderView {
                version: 2,
                tree_size: number_at(bytes, 8, 4) as u32,
                file_data_section_size: number_at(bytes, 12, 4) as u32,
                archive_md5_section_size: number_at(bytes, 16, 4) as u32,
                other_md5_section_size: number_at(bytes, 20, 4) as u32,
                signature_section_size: number_at(bytes, 24, 4) as u32,
                header_size: 28,
            },
        )
    }
}

/// An entry of the section of archive checksums as a value.
pub struct ArchiveChecksumView {
    pub archive_index: u32,
    pub offset: u32,
    pub length: u32,
    pub checksum: Seq<u8>,
}

impl View for ArchiveMD5SectionEntry {
    type V = ArchiveChecksumView;

    open spec fn view(&self) -> ArchiveChecksumView {
        ArchiveChecksumView {
            archive_index: self.archive_index,
            offset: self.offset,
            length: self.length,
            checksum: self.checksum@,
        }
    }
}

/// The first `count` entries of the section of archive checksums that
/// starts at `pos`: three numbers and a checksum of sixteen bytes each.
pub open spec fn archive_checksums_at(bytes: Seq<u8>, pos: int, count: int) -> Result<
    Seq<ArchiveChecksumView>,
    Fault,
>
    decreases count,
{
    if count <= 0 {
        Ok(Seq::empty())
    } else {
        match archive_checksums_at(bytes, pos, count - 1) {
            Err(fault) => Err(fault),
            Ok(before) => {
                let at = pos + 28 * (count - 1);
                if at + 12 > bytes.len() {
                    Err(Fault::Eof)
                } else {
                    Ok(
                        before.push(
                            ArchiveChecksumView {
                                archive_index: number_at(bytes, at, 4) as u32,
                                offset: number_at(bytes, at + 4, 4) as u32,
                                length: number_at(bytes, at + 8, 4) as u32,
                                checksum: filled_at(bytes, at + 12, 16),
                            },
                        ),
                    )
                }
            },
        }
    }
}

/// The words for bytes that are no package.
fn not_a_vpk() -> (message: String)
    ensures
        message@ == "Given file is not a VPK."@,
{
    "Given file is not a VPK.".to_string()
}

/// The words for a version that is not known.
fn bad_version(version: u32) -> (message: String)
    ensures
        message@ == "Bad VPK version: "@ + decimal(version as nat),
{
    "Bad VPK version: ".to_owned().concat(decimal_text(version).as_str())
}

/// The words for a section of checksums of the wrong size.
fn bad_checksum_section(size: u32) -> (message: String)
    ensures
        message@ == "Encountered OtherMD5Section with size of "@ + decimal(size as nat)
            + " (should be 48)"@,
{
    "Encountered OtherMD5Section with size of ".to_owned().concat(
        decimal_text(size).as_str(),
    ).concat(" (should be 48)")
}

/// Reads the header.
fn read_header(input: &mut ByteReader) -> (result: Result<HeaderView, PackageError>)
    requires
        old(input).pos() == 0,
    ensures
        final(input).bytes() == old(input).bytes(),
        final(input).pos() <= final(input).bytes().len(),
        match header_of(old(input).bytes()) {
            Ok(header) => result == Ok::<HeaderView, PackageError>(header) && final(input).pos()
                == header.header_size,
            Err(fault) => result matches Err(e) && tells(e, fault),
        },
{
    let ghost bytes = input.bytes();
    proof {
        if 4 <= bytes.len() {
            assert(bytes.skip(0).take(4) =~= bytes.subrange(0, 4));
        }
        if 8 <= bytes.len() {
            assert(bytes.skip(4).take(4) =~= bytes.subrange(4, 8));
        }
        if 12 <= bytes.len() {
            assert(bytes.skip(8).take(4) =~= bytes.subrange(8, 12));
        }
        if 28 <= bytes.len() {
            assert(bytes.skip(12).take(4) =~= bytes.subrange(12, 16));
            assert(bytes.skip(16).take(4) =~= bytes.subrange(16, 20));
            assert(bytes.skip(20).take(4) =~= bytes.subrange(20, 24));
            assert(bytes.skip(24).take(4) =~= bytes.subrange(24, 28));
        }
    }
    let magic = match number(input.read_u32()) {
        Ok(v) => v,
        Err(e) => {
            return Err(e);
        },
    };
    if magic != MAGIC {
        return Err(PackageError::FileError(not_a_vpk()));
    }
    let version = match number(input.read_u32()) {
        Ok(v) => v,
        Err(e) => {
            return Err(e);
        },
    };
    let tree_size = match number(input.read_u32()) {
        Ok(v) => v,
        Err(e) => {
            return Err(e);
        },
    };
    if version == 1 {
        return Ok(
            HeaderView {
                version,
                tree_size,
                file_data_section_size: 0,
                archive_md5_section_size: 0,
                other_md5_section_size: 0,
                signature_section_size: 0,
                header_size: 12,
            },
        );
    }
    if version != 2 {
        return Err(PackageError::FileError(bad_version(version)));
    }
    let file_data_section_size = match number(input.read_u32()) {
        Ok(v) => v,
        Err(e) => {
            return Err(e);
        },
    };
    let archive_md5_section_size = match number(input.read_u32()) {
        Ok(v) => v,
        Err(e) => {
            return Err(e);
        },
    };
    let other_md5_section_size = match number(input.read_u32()) {
        Ok(v) => v,
        Err(e) => {
            return Err(e);
        },
    };
    let signature_section_size = match number(input.read_u32()) {
        Ok(v) => v,
        Err(e) => {
            return Err(e);
        },
    };
    Ok(
        HeaderView {
            version,
            tree_size,
            file_data_section_size,
            archive_md5_section_size,
            other_md5_section_size,
            signature_section_size,
            header_size: 28,
        },
    )
}

/// Reads the section of archive checksums, which is
/// `archive_md5_section_size` bytes long.
#[verifier::loop_isolation(false)]
pub fn read_archive_md5_section(input: &mut ByteReader, archive_md5_section_size: u32) -> (result:
    Result<Vec<ArchiveMD5SectionEntry>, PackageError>)
    ensures
        final(input).bytes() == old(input).bytes(),
        final(input).pos() <= final(input).bytes().len(),
        match archive_checksums_at(
            old(input).bytes(),
            old(input).pos(),
            archive_md5_section_size as int / 28,
        ) {
            Ok(all) => result matches Ok(entries) && entries@.map_values(
                |e: ArchiveMD5SectionEntry| e@,
            ) == all && final(input).pos() == after_fill(
                old(input).bytes(),
                old(input).pos(),
                28 * (archive_md5_section_size as int / 28),
            ),
            Err(fault) => result matches Err(e) && tells(e, fault),
        },
{
    let ghost bytes = input.bytes();
    let ghost pos = input.pos();
    let _ = input.position();
    let mut archive_md5_entries: Vec<ArchiveMD5SectionEntry> = Vec::new();
    let entries = archive_md5_section_size / ARCHIVE_MD5_ENTRY_SIZE;
    let mut i: u32 = 0;
    proof {
        assert(archive_md5_entries@.map_values(|e: ArchiveMD5SectionEntry| e@) =~= Seq::<
            ArchiveChecksumView,
        >::empty());
    }
    while i < entries
        invariant
            i <= entries,
            input.bytes() == bytes,
            input.pos() <= bytes.len(),
            input.pos() == after_fill(bytes, pos, 28 * i),
            archive_checksums_at(bytes, pos, i as int) == Ok::<Seq<ArchiveChecksumView>, Fault>(
                archive_md5_entries@.map_values(|e: ArchiveMD5SectionEntry| e@),
            ),
        decreases entries - i,
    {
        let ghost at = pos + 28 * i;
        let ghost held = archive_md5_entries@.map_values(|e: ArchiveMD5SectionEntry| e@);
        proof {
            if archive_checksums_at(bytes, pos, i as int + 1) is Err {
                lemma_archive_checksums_fail_on(bytes, pos, i as int + 1, entries as int);
            }
            if at + 12 <= bytes.len() {
                assert(bytes.skip(at).take(4) =~= bytes.subrange(at, at + 4));
                assert(bytes.skip(at + 4).take(4) =~= bytes.subrange(at + 4, at + 8));
                assert(bytes.skip(at + 8).take(4) =~= bytes.subrange(at + 8, at + 12));
            }
        }
        let archive_index = match number(input.read_u32()) {
            Ok(v) => v,
            Err(e) => {
                return Err(e);
            },
        };
        let offset = match number(input.read_u32()) {
            Ok(v) => v,
            Err(e) => {
                return Err(e);
            },
        };
        let length = match number(input.read_u32()) {
            Ok(v) => v,
            Err(e) => {
                return Err(e);
            },
        };
        let checksum = input.read(16);
        proof {
            assert(checksum@ =~= filled_at(bytes, at + 12, 16));
        }
        let entry = ArchiveMD5SectionEntry { archive_index, offset, length, checksum };
        proof {
            assert(archive_md5_entries@.push(entry).map_values(|e: ArchiveMD5SectionEntry| e@)
                =~= held.push(entry@));
        }
        archive_md5_entries.push(entry);
        i = i + 1;
    }
    Ok(archive_md5_entries)
}

/// Where the first entries of a section of archive checksums cannot be
/// read, the section cannot be read.
pub proof fn lemma_archive_checksums_fail_on(bytes: Seq<u8>, pos: int, count: int, more: int)
    requires
        0 <= count <= more,
        archive_checksums_at(bytes, pos, count) is Err,
    ensures
        archive_checksums_at(bytes, pos, more) == archive_checksums_at(bytes, pos, count),
    decreases more - count,
{
    if count < more {
        lemma_archive_checksums_fail_on(bytes, pos, count, more - 1);
    }
}

/// The three checksums of sixteen bytes each that stand at `pos`.
pub open spec fn checksums_at(bytes: Seq<u8>, pos: int) -> (Seq<u8>, Seq<u8>, Seq<u8>) {
    (
        filled_at(bytes, pos, 16),
        filled_at(bytes, after_fill(bytes, pos, 16), 16),
        filled_at(bytes, after_fill(bytes, pos, 32), 16),
    )
}

/// Reads the section of the package's own checksums, which has to be 48
/// bytes long: the checksum of the tree, that of the section of archive
/// checksums, and that of the whole file.
pub fn read_other_md5_section(input: &mut ByteReader, other_md5_section_size: u32) -> (result: Result<
    (Vec<u8>, Vec<u8>, Vec<u8>),
    PackageError,
>)
    ensures
        final(input).bytes() == old(input).bytes(),
        final(input).pos() <= final(input).bytes().len(),
        other_md5_section_size != 48 ==> (result matches Err(e) && tells(
            e,
            Fault::BadChecksumSection(other_md5_section_size),
        ) && final(input).pos() == old(input).pos()),
        other_md5_section_size == 48 ==> (result matches Ok(sums) && (sums.0@, sums.1@, sums.2@)
            == checksums_at(old(input).bytes(), old(input).pos()) && final(input).pos()
            == after_fill(old(input).bytes(), old(input).pos(), 48)),
{
    let ghost bytes = input.bytes();
    let _ = input.position();
    if other_md5_section_size != 48 {
        return Err(PackageError::FileError(bad_checksum_section(other_md5_section_size)));
    }
    let tree_checksum = input.read(16);
    let archive_md5_entries_checksum = input.read(16);
    let whole_file_checksum = input.read(16);
    proof {
        let pos = old(input).pos();
        assert(tree_checksum@ =~= filled_at(bytes, pos, 16));
        assert(archive_md5_entries_checksum@ =~= filled_at(bytes, after_fill(bytes, pos, 16), 16));
        assert(whole_file_checksum@ =~= filled_at(bytes, after_fill(bytes, pos, 32), 16));
    }
    Ok((tree_checksum, archive_md5_entries_checksum, whole_file_checksum))
}

/// The public key and the signature that stand at `pos`, each behind its
/// length.
pub open spec fn signature_at(bytes: Seq<u8>, pos: int) -> Result<(Seq<u8>, Seq<u8>, int), Fault> {
    if pos + 4 > bytes.len() {
        Err(Fault::Eof)
    } else {
        let key_size = number_at(bytes, pos, 4) as int;
        let key = filled_at(bytes, pos + 4, key_size);
        let after_key = after_fill(bytes, pos + 4, key_size);
        if after_key + 4 > bytes.len() {
            Err(Fault::Eof)
        } else {
            let signature_size = number_at(bytes, after_key, 4) as int;
            Ok(
                (
                    key,
                    filled_at(bytes, after_key + 4, signature_size),
                    after_fill(bytes, after_key + 4, signature_size),
                ),
            )
        }
    }
}

/// Reads the section with the public key and the signature, which is
/// `signature_section_size` bytes long. A package without that section has
/// neither.
pub fn read_signature_section(input: &mut ByteReader, signature_section_size: u32) -> (result: Result<
    (Vec<u8>, Vec<u8>),
    PackageError,
>)
    ensures
        final(input).bytes() == old(input).bytes(),
        final(input).pos() <= final(input).bytes().len(),
        signature_section_size == 0 ==> (result matches Ok(pair) && pair.0@.len() == 0
            && pair.1@.len() == 0 && final(input).pos() == old(input).pos()),
        signature_section_size != 0 ==> match signature_at(old(input).bytes(), old(input).pos()) {
            Ok((key, signature, next)) => result matches Ok(pair) && pair.0@ == key && pair.1@
                == signature && final(input).pos() == next,
            Err(fault) => result matches Err(e) && tells(e, fault),
        },
{
    let ghost bytes = input.bytes();
    let ghost pos = input.pos();
    let _ = input.position();
    if signature_section_size == 0 {
        return Ok((Vec::new(), Vec::new()));
    }
    proof {
        if pos + 4 <= bytes.len() {
            assert(bytes.skip(pos).take(4) =~= bytes.subrange(pos, pos + 4));
        }
    }
    let public_key_size = match number(input.read_u32()) {
        Ok(v) => v,
        Err(e) => {
            return Err(e);
        },
    };
    let public_key = input.read(public_key_size as usize);
    let ghost after_key = input.pos();
    proof {
        assert(public_key@ =~= filled_at(bytes, pos + 4, public_key_size as int));
        if after_key + 4 <= bytes.len() {
            assert(bytes.skip(after_key).take(4) =~= bytes.subrange(after_key, after_key + 4));
        }
    }
    let signature_size = match number(input.read_u32()) {
        Ok(v) => v,
        Err(e) => {
            return Err(e);
        },
    };
    let signature = input.read(signature_size as usize);
    proof {
        assert(signature@ =~= filled_at(bytes, after_key + 4, signature_size as int));
    }
    Ok((public_key, signature))
}

/// What stands in a package behind its header.
pub struct PackageParts {
    pub header: HeaderView,
    pub types: Seq<TypeView>,
    pub archive_md5_entries: Seq<ArchiveChecksumView>,
    pub tree_checksum: Seq<u8>,
    pub archive_md5_entries_checksum: Seq<u8>,
    pub whole_file_checksum: Seq<u8>,
    pub public_key: Seq<u8>,
    pub signature: Seq<u8>,
}

/// Sixteen zero bytes: the checksum of a package that has none.
pub open spec fn no_checksum() -> Seq<u8> {
    Seq::new(16, |i: int| 0u8)
}

/// The sections behind the tree of a package of the second version, whose
/// tree ends at `pos`: the files' data is passed over, then come the
/// archive checksums, the package's own checksums, and the signature.
pub open spec fn sections_of(bytes: Seq<u8>, header: HeaderView, types: Seq<TypeView>, pos: int)
    -> Result<PackageParts, Fault> {
    let archives_at = after_fill(bytes, pos, header.file_data_section_size as int);
    let count = header.archive_md5_section_size as int / 28;
    match archive_checksums_at(bytes, archives_at, count) {
        Err(fault) => Err(fault),
        Ok(archive_md5_entries) => {
            let sums_at = after_fill(bytes, archives_at, 28 * count);
            if header.other_md5_section_size != 48 {
                Err(Fault::BadChecksumSection(header.other_md5_section_size))
            } else {
                let sums = checksums_at(bytes, sums_at);
                let signature_from = after_fill(bytes, sums_at, 48);
                if header.signature_section_size == 0 {
                    Ok(
                        PackageParts {
                            header,
                            types,
                            archive_md5_entries,
                            tree_checksum: sums.0,
                            archive_md5_entries_checksum: sums.1,
                            whole_file_checksum: sums.2,
                            public_key: Seq::empty(),
                            signature: Seq::empty(),
                        },
                    )
                } else {
                    match signature_at(bytes, signature_from) {
                        Err(fault) => Err(fault),
                        Ok((public_key, signature, next)) => Ok(
                            PackageParts {
                                header,
                                types,
                                archive_md5_entries,
                                tree_checksum: sums.0,
                                archive_md5_entries_checksum: sums.1,
                                whole_file_checksum: sums.2,
                                public_key,
                                signature,
                            },
                        ),
                    }
                }
            }
        },
    }
}

/// The package that `bytes` spell: the header, the tree, and in the second
/// version the sections behind the tree.
pub open spec fn package_of(bytes: Seq<u8>) -> Result<PackageParts, Fault> {
    match header_of(bytes) {
        Err(fault) => Err(fault),
        Ok(header) => match types_at(bytes, header.header_size as int, Seq::empty()) {
            Err(fault) => Err(fault),
            Ok((types, pos)) => if header.version == 2 {
                sections_of(bytes, header, types, pos)
            } else {
                Ok(
                    PackageParts {
                        header,
                        types,
                        archive_md5_entries: Seq::empty(),
                        tree_checksum: no_checksum(),
                        archive_md5_entries_checksum: no_checksum(),
                        whole_file_checksum: no_checksum(),
                        public_key: Seq::empty(),
                        signature: Seq::empty(),
                    },
                )
            },
        },
    }
}

/// Whether no two of `types` have one name, so that a name leads to one
/// list of entries.
pub open spec fn types_distinct(types: Seq<TypeView>) -> bool {
    forall|a: int, b: int|
        0 <= a < b < types.len() ==> (#[trigger] types[a]).file_type != (
        #[trigger] types[b]).file_type
}

/// [`type_index`] gives the first type at or after `from` that has the
/// name, or the number of types.
pub proof fn lemma_type_index(types: Seq<TypeView>, name: Seq<char>, from: int)
    requires
        0 <= from <= types.len(),
    ensures
        from <= type_index(types, name, from) <= types.len(),
        type_index(types, name, from) < types.len() ==> types[type_index(
            types,
            name,
            from,
        )].file_type == name,
        forall|j: int|
            from <= j < type_index(types, name, from) ==> (#[trigger] types[j]).file_type != name,
    decreases types.len() - from,
{
    if from < types.len() && types[from].file_type != name {
        lemma_type_index(types, name, from + 1);
    }
}

/// Entries that are read for a type keep the names of the types apart.
pub proof fn lemma_with_type_distinct(
    types: Seq<TypeView>,
    name: Seq<char>,
    entries: Seq<EntryView>,
)
    requires
        types_distinct(types),
    ensures
        types_distinct(with_type(types, name, entries)),
{
    lemma_type_index(types, name, 0);
    let at = type_index(types, name, 0);
    let after = with_type(types, name, entries);
    assert forall|a: int, b: int| 0 <= a < b < after.len() implies (#[trigger] after[a]).file_type != (
    #[trigger] after[b]).file_type by {
        if at < types.len() {
            assert(after[a].file_type == types[a].file_type);
            assert(after[b].file_type == types[b].file_type);
        } else if b < types.len() {
            assert(after[a] == types[a] && after[b] == types[b]);
        } else {
            assert(after[a] == types[a]);
        }
    }
}

/// Reading the tree keeps the names of the types apart.
pub proof fn lemma_types_at_distinct(bytes: Seq<u8>, pos: int, acc: Seq<TypeView>)
    requires
        types_distinct(acc),
    ensures
        types_at(bytes, pos, acc) matches Ok(read) ==> types_distinct(read.0),
    decreases bytes.len() - pos,
{
    match name_at(bytes, pos) {
        Err(fault) => {},
        Ok((file_type, next)) => {
            if file_type.len() != 0 {
                match directories_at(bytes, next, file_type, Seq::empty()) {
                    Err(fault) => {},
                    Ok((entries, behind)) => {
                        if pos < behind <= bytes.len() && pos >= 0 {
                            lemma_with_type_distinct(acc, file_type, entries);
                            lemma_types_at_distinct(
                                bytes,
                                behind,
                                with_type(acc, file_type, entries),
                            );
                        }
                    },
                }
            }
        },
    }
}

/// In a package no two types have one name: entries that are read for a
/// type that was read before take the place of the earlier ones.
pub proof fn law_types_are_distinct(bytes: Seq<u8>)
    ensures
        package_of(bytes) matches Ok(parts) ==> types_distinct(parts.types),
{
    match header_of(bytes) {
        Err(fault) => {},
        Ok(header) => {
            lemma_types_at_distinct(bytes, header.header_size as int, Seq::empty());
        },
    }
}

/// What `str::to_lowercase` makes of a text, as bytes.
pub uninterp spec fn lowercase_bytes(text: Seq<u8>) -> Seq<u8>;

/// `str::to_lowercase`: the text in lower case, as its bytes.
#[verifier::external_body]
fn to_lowercase(text: &str) -> (lower: Vec<u8>)
    ensures
        lower@ == lowercase_bytes(text.spec_bytes()),
{
    text.to_lowercase().into_bytes()
}

/// The bytes of `.vpk`.
pub open spec fn vpk_suffix() -> Seq<u8> {
    seq![0x2Eu8, 0x76u8, 0x70u8, 0x6Bu8]
}

/// The bytes of `_dir`.
pub open spec fn dir_suffix() -> Seq<u8> {
    seq![0x5Fu8, 0x64u8, 0x69u8, 0x72u8]
}

/// Whether the last four bytes of `name` can be cut off: there are four,
/// and no character is cut in two.
pub open spec fn can_cut(name: Seq<u8>) -> bool {
    name.len() >= 4 && is_char_boundary(name, name.len() - 4)
}

/// The name of a package without its ending, and whether it is the
/// directory of a package in several files: a name that ends in `.vpk` in
/// any case loses that ending; any other that ends in `_dir` loses that
/// and is a directory. A name whose last four bytes cannot be cut off is
/// left as it is.
pub open spec fn sanitized(name: Seq<u8>) -> (Seq<u8>, bool) {
    let lower = lowercase_bytes(name);
    if ends_with(lower, vpk_suffix()) && can_cut(name) {
        (name.subrange(0, name.len() - 4), false)
    } else if !ends_with(lower, vpk_suffix()) && ends_with(lower, dir_suffix()) && can_cut(name) {
        (name.subrange(0, name.len() - 4), true)
    } else {
        (name, false)
    }
}

/// A package as a value.
pub struct PackageView {
    pub file_name: Seq<char>,
    pub is_dir_vpk: bool,
    pub parts: PackageParts,
    pub bytes: Seq<u8>,
}

/// A package.
#[derive(Debug)]
pub struct Package {
    reader: ByteReader,
    is_dir_vpk: bool,
    header_size: u32,
    file_name: String,
    version: u32,
    tree_size: u32,
    file_data_section_size: u32,
    archive_md5_section_size: u32,
    other_md5_section_size: u32,
    signature_section_size: u32,
    tree_checksum: Vec<u8>,
    archive_md5_entries_checksum: Vec<u8>,
    whole_file_checksum: Vec<u8>,
    public_key: Vec<u8>,
    signature: Vec<u8>,
    entries: Vec<TypeEntries>,
    archive_md5_entries: Vec<ArchiveMD5SectionEntry>,
}

impl View for Package {
    type V = PackageView;

    closed spec fn view(&self) -> PackageView {
        PackageView {
            file_name: self.file_name@,
            is_dir_vpk: self.is_dir_vpk,
            parts: PackageParts {
                header: HeaderView {
                    version: self.version,
                    tree_size: self.tree_size,
                    file_data_section_size: self.file_data_section_size,
                    archive_md5_section_size: self.archive_md5_section_size,
                    other_md5_section_size: self.other_md5_section_size,
                    signature_section_size: self.signature_section_size,
                    header_size: self.header_size,
                },
                types: self.entries@.map_values(|t: TypeEntries| t@),
                archive_md5_entries: self.archive_md5_entries@.map_values(
                    |e: ArchiveMD5SectionEntry| e@,
                ),
                tree_checksum: self.tree_checksum@,
                archive_md5_entries_checksum: self.archive_md5_entries_checksum@,
                whole_file_checksum: self.whole_file_checksum@,
                public_key: self.public_key@,
                signature: self.signature@,
            },
            bytes: self.reader.bytes(),
        }
    }
}

/// Sixteen zero bytes.
fn zero_checksum() -> (sum: Vec<u8>)
    ensures
        sum@ == no_checksum(),
{
    let mut sum: Vec<u8> = Vec::new();
    let mut i: usize = 0;
    while i < 16
        invariant
            i <= 16,
            sum@.len() == i,
            forall|k: int| 0 <= k < i ==> sum@[k] == 0u8,
        decreases 16 - i,
    {
        sum.push(0);
        i = i + 1;
    }
    proof {
        assert(sum@ =~= no_checksum());
    }
    sum
}

impl Package {
    /// The name of a package without its ending, and whether it is the
    /// directory of a package in several files.
    pub fn sanitize_file_name(file_name: &str) -> (result: (String, bool))
        ensures
            encode_utf8(result.0@) == sanitized(file_name.spec_bytes()).0,
            result.1 == sanitized(file_name.spec_bytes()).1,
    {
        let lower = to_lowercase(file_name);
        let vpk: [u8; 4] = [0x2E, 0x76, 0x70, 0x6B];
        let dir: [u8; 4] = [0x5F, 0x64, 0x69, 0x72];
        proof {
            assert(vpk@ =~= vpk_suffix());
            assert(dir@ =~= dir_suffix());
        }
        let len = file_name.as_bytes().len();
        let cut = len >= 4 && file_name.is_char_boundary(len - 4);
        let is_vpk = bytes_end_with(lower.as_slice(), vpk.as_slice());
        let is_dir = !is_vpk && bytes_end_with(lower.as_slice(), dir.as_slice());
        if cut && (is_vpk || is_dir) {
            let (head, _tail) = file_name.split_at(len - 4);
            return (head.to_owned(), is_dir);
        }
        (file_name.to_owned(), false)
    }

    /// Reads a package named `file_name` from the bytes of `input`, which
    /// stands at their start. The package keeps the bytes.
    pub fn read(file_name: &str, input: ByteReader) -> (result: Result<Self, PackageError>)
        requires
            input.pos() == 0,
        ensures
            match package_of(input.bytes()) {
                Ok(parts) => result matches Ok(package) && package@.parts == parts
                    && package@.bytes == input.bytes() && encode_utf8(package@.file_name)
                    == sanitized(file_name.spec_bytes()).0 && package@.is_dir_vpk == sanitized(
                    file_name.spec_bytes(),
                ).1,
                Err(fault) => result matches Err(e) && tells(e, fault),
            },
    {
        let mut input = input;
        let ghost bytes = input.bytes();
        let (file_name, is_dir_vpk) = Package::sanitize_file_name(file_name);
        let header = match read_header(&mut input) {
            Ok(header) => header,
            Err(e) => {
                return Err(e);
            },
        };
        let entries = match read_entries(&mut input) {
            Ok(entries) => entries,
            Err(e) => {
                return Err(e);
            },
        };
        if header.version != 2 {
            let package = Package {
                    reader: input,
                    is_dir_vpk,
                    header_size: header.header_size,
                    file_name,
                    version: header.version,
                    tree_size: header.tree_size,
                    file_data_section_size: header.file_data_section_size,
                    archive_md5_section_size: header.archive_md5_section_size,
                    other_md5_section_size: header.other_md5_section_size,
                    signature_section_size: header.signature_section_size,
                    tree_checksum: zero_checksum(),
                    archive_md5_entries_checksum: zero_checksum(),
                    whole_file_checksum: zero_checksum(),
                    public_key: Vec::new(),
                    signature: Vec::new(),
                    entries,
                    archive_md5_entries: Vec::new(),
                };
            proof {
                let parts = package_of(bytes)->Ok_0;
                assert(package@.parts.archive_md5_entries =~= parts.archive_md5_entries);
                assert(package@.parts.public_key =~= parts.public_key);
                assert(package@.parts.signature =~= parts.signature);
            }
            return Ok(package);
        }
        input.skip(header.file_data_section_size as usize);
        let archive_md5_entries = match read_archive_md5_section(
            &mut input,
            header.archive_md5_section_size,
        ) {
            Ok(entries) => entries,
            Err(e) => {
                return Err(e);
            },
        };
        let (tree_checksum, archive_md5_entries_checksum, whole_file_checksum) =
            match read_other_md5_section(&mut input, header.other_md5_section_size) {
            Ok(sums) => sums,
            Err(e) => {
                return Err(e);
            },
        };
        let (public_key, signature) = match read_signature_section(
            &mut input,
            header.signature_section_size,
        ) {
            Ok(pair) => pair,
            Err(e) => {
                return Err(e);
            },
        };
        proof {
            assert(public_key@ =~= package_of(bytes)->Ok_0.public_key);
            assert(signature@ =~= package_of(bytes)->Ok_0.signature);
        }
        Ok(
            Package {
                reader: input,
                is_dir_vpk,
                header_size: header.header_size,
                file_name,
                version: header.version,
                tree_size: header.tree_size,
                file_data_section_size: header.file_data_section_size,
                archive_md5_section_size: header.archive_md5_section_size,
                other_md5_section_size: header.other_md5_section_size,
                signature_section_size: header.signature_section_size,
                tree_checksum,
                archive_md5_entries_checksum,
                whole_file_checksum,
                public_key,
                signature,
                entries,
                archive_md5_entries,
            },
        )
    }

    /// The package's name, without its ending.
    pub fn file_name(&self) -> (name: &str)
        ensures
            name@ == self@.file_name,
    {
        self.file_name.as_str()
    }

    /// Whether the package is the directory of a package in several files.
    pub fn is_dir_vpk(&self) -> (is_dir: bool)
        ensures
            is_dir == self@.is_dir_vpk,
    {
        self.is_dir_vpk
    }

    /// The version of the format.
    pub fn version(&self) -> (version: u32)
        ensures
            version == self@.parts.header.version,
    {
        self.version
    }

    /// Bytes in the header.
    pub fn header_size(&self) -> (size: u32)
        ensures
            size == self@.parts.header.header_size,
    {
        self.header_size
    }

    /// Bytes in the tree.
    pub fn tree_size(&self) -> (size: u32)
        ensures
            size == self@.parts.header.tree_size,
    {
        self.tree_size
    }

    /// Bytes of file content in this package.
    pub fn file_data_section_size(&self) -> (size: u32)
        ensures
            size == self@.parts.header.file_data_section_size,
    {
        self.file_data_section_size
    }

    /// Bytes in the section of archive checksums.
    pub fn archive_md5_section_size(&self) -> (size: u32)
        ensures
            size == self@.parts.header.archive_md5_section_size,
    {
        self.archive_md5_section_size
    }

    /// Bytes in the section of the package's own checksums.
    pub fn other_md5_section_size(&self) -> (size: u32)
        ensures
            size == self@.parts.header.other_md5_section_size,
    {
        self.other_md5_section_size
    }

    /// Bytes in the section with the public key and the signature.
    pub fn signature_section_size(&self) -> (size: u32)
        ensures
            size == self@.parts.header.signature_section_size,
    {
        self.signature_section_size
    }

    /// The checksum of the tree.
    pub fn tree_checksum(&self) -> (sum: &Vec<u8>)
        ensures
            sum@ == self@.parts.tree_checksum,
    {
        &self.tree_checksum
    }

    /// The checksum of the section of archive checksums.
    pub fn archive_md5_entries_checksum(&self) -> (sum: &Vec<u8>)
        ensures
            sum@ == self@.parts.archive_md5_entries_checksum,
    {
        &self.archive_md5_entries_checksum
    }

    /// The checksum of the package up to the signature.
    pub fn whole_file_checksum(&self) -> (sum: &Vec<u8>)
        ensures
            sum@ == self@.parts.whole_file_checksum,
    {
        &self.whole_file_checksum
    }

    /// The public key.
    pub fn public_key(&self) -> (key: &Vec<u8>)
        ensures
            key@ == self@.parts.public_key,
    {
        &self.public_key
    }

    /// The signature.
    pub fn signature(&self) -> (signature: &Vec<u8>)
        ensures
            signature@ == self@.parts.signature,
    {
        &self.signature
    }

    /// The entries of the package, file type by file type.
    pub fn entries(&self) -> (entries: &Vec<TypeEntries>)
        ensures
            entries@.map_values(|t: TypeEntries| t@) == self@.parts.types,
    {
        &self.entries
    }

    /// The entries of the section of archive checksums.
    pub fn archive_md5_entries(&self) -> (entries: &Vec<ArchiveMD5SectionEntry>)
        ensures
            entries@.map_values(|e: ArchiveMD5SectionEntry| e@) == self@.parts.archive_md5_entries,
    {
        &self.archive_md5_entries
    }
}

/// The byte that separates directories.
pub const SEPARATOR: u8 = 0x2F;

/// The path with every backslash turned into a separator.
pub open spec fn with_separators(path: Seq<u8>) -> Seq<u8> {
    path.map_values(
        |b: u8|
            if b == 0x5Cu8 {
                SEPARATOR
            } else {
                b
            },
    )
}

/// The index of the first byte of `path` at or after `from` that is no
/// separator, or the length of `path`.
pub open spec fn trim_from(path: Seq<u8>, from: int) -> int
    decreases path.len() - from,
{
    if from < 0 || from >= path.len() {
        path.len() as int
    } else if path[from] != SEPARATOR {
        from
    } else {
        trim_from(path, from + 1)
    }
}

/// The index behind the last byte of `path` before `to` that is no
/// separator, or zero.
pub open spec fn trim_to(path: Seq<u8>, to: int) -> int
    decreases to,
{
    if to <= 0 || to > path.len() {
        0
    } else if path[to - 1] != SEPARATOR {
        to
    } else {
        trim_to(path, to - 1)
    }
}

/// The directory that entries are kept under for a directory given as
/// `directory`: backslashes are separators, separators at either end are
/// dropped, and the root is kept under a single space.
pub open spec fn wanted_directory(directory: Seq<u8>) -> Seq<u8> {
    let path = with_separators(directory);
    let from = trim_from(path, 0);
    let to = trim_to(path, path.len() as int);
    if from >= to {
        seq![0x20u8]
    } else {
        path.subrange(from, to)
    }
}

/// Whether `entry` is the file `name` in the directory `directory`.
pub open spec fn entry_is(entry: EntryView, directory: Seq<u8>, name: Seq<u8>) -> bool {
    encode_utf8(entry.directory_name) == directory && encode_utf8(entry.file_name) == name
}

/// The index of the first entry at or after `from` that is the file `name`
/// in `directory`, or the number of entries.
pub open spec fn entry_index(entries: Seq<EntryView>, directory: Seq<u8>, name: Seq<u8>, from: int)
    -> int
    decreases entries.len() - from,
{
    if from < 0 || from >= entries.len() {
        entries.len() as int
    } else if entry_is(entries[from], directory, name) {
        from
    } else {
        entry_index(entries, directory, name, from + 1)
    }
}

/// The index of the first type at or after `from` whose name is
/// `extension`, or the number of types.
pub open spec fn extension_index(types: Seq<TypeView>, extension: Seq<u8>, from: int) -> int
    decreases types.len() - from,
{
    if from < 0 || from >= types.len() {
        types.len() as int
    } else if encode_utf8(types[from].file_type) == extension {
        from
    } else {
        extension_index(types, extension, from + 1)
    }
}

/// The entry of the file `name` with the ending `extension` in
/// `directory`, if the package has one.
pub open spec fn found(types: Seq<TypeView>, directory: Seq<u8>, name: Seq<u8>, extension: Seq<u8>)
    -> Option<EntryView> {
    let t = extension_index(types, extension, 0);
    if t >= types.len() {
        None
    } else {
        let e = entry_index(types[t].entries, wanted_directory(directory), name, 0);
        if e >= types[t].entries.len() {
            None
        } else {
            Some(types[t].entries[e])
        }
    }
}

/// The index of the last byte `byte` of `text` before `to`, or -1.
pub open spec fn last_index(text: Seq<u8>, byte: u8, to: int) -> int
    decreases to,
{
    if to <= 0 || to > text.len() {
        -1
    } else if text[to - 1] == byte {
        to - 1
    } else {
        last_index(text, byte, to - 1)
    }
}

/// The entry that a search for `file_name` in `directory` finds: the name
/// is cut at its last dot into the name proper and the ending.
pub open spec fn found_in_dir(types: Seq<TypeView>, directory: Seq<u8>, file_name: Seq<u8>)
    -> Option<EntryView> {
    let dot = last_index(file_name, 0x2Eu8, file_name.len() as int);
    if dot >= 0 {
        found(
            types,
            directory,
            file_name.subrange(0, dot),
            file_name.subrange(dot + 1, file_name.len() as int),
        )
    } else {
        found(types, directory, file_name, Seq::empty())
    }
}

/// The entry that a search for the path `file_path` finds. The path is cut
/// at its last separator; what stands behind it is searched for as the
/// directory, and what stands before it as the file.
pub open spec fn found_by_path(types: Seq<TypeView>, file_path: Seq<u8>) -> Option<EntryView> {
    let path = with_separators(file_path);
    let cut = last_index(path, SEPARATOR, path.len() as int);
    if cut >= 0 {
        found_in_dir(types, path.subrange(cut + 1, path.len() as int), path.subrange(0, cut))
    } else {
        found_in_dir(types, path, Seq::empty())
    }
}

/// Whether two runs of bytes are the same.
fn bytes_equal(a: &[u8], b: &[u8]) -> (same: bool)
    ensures
        same == (a@ == b@),
{
    if a.len() != b.len() {
        return false;
    }
    let mut i: usize = 0;
    while i < a.len()
        invariant
            i <= a@.len(),
            a@.len() == b@.len(),
            forall|k: int| 0 <= k < i ==> a@[k] == b@[k],
        decreases a@.len() - i,
    {
        if a[i] != b[i] {
            return false;
        }
        i = i + 1;
    }
    proof {
        assert(a@ =~= b@);
    }
    true
}

/// The path with every backslash turned into a separator.
fn normalize(path: &[u8]) -> (normal: Vec<u8>)
    ensures
        normal@ == with_separators(path@),
{
    let mut normal: Vec<u8> = Vec::with_capacity(path.len());
    let mut i: usize = 0;
    while i < path.len()
        invariant
            i <= path@.len(),
            normal@ == with_separators(path@.take(i as int)),
        decreases path@.len() - i,
    {
        let b = path[i];
        normal.push(
            if b == 0x5C {
                SEPARATOR
            } else {
                b
            },
        );
        proof {
            assert(normal@ =~= with_separators(path@.take(i + 1)));
        }
        i = i + 1;
    }
    proof {
        assert(path@.take(i as int) =~= path@);
    }
    normal
}

/// The index of the last byte `byte` of `text`, if it has one.
fn find_last(text: &[u8], byte: u8) -> (index: Option<usize>)
    ensures
        match index {
            Some(i) => i == last_index(text@, byte, text@.len() as int) && i < text@.len(),
            None => last_index(text@, byte, text@.len() as int) == -1,
        },
{
    let mut to: usize = text.len();
    while to > 0 && text[to - 1] != byte
        invariant
            to <= text@.len(),
            last_index(text@, byte, text@.len() as int) == last_index(text@, byte, to as int),
        decreases to,
    {
        to = to - 1;
    }
    if to == 0 {
        None
    } else {
        Some(to - 1)
    }
}

impl Package {
    /// The entry of the file `file_name` with the ending `extension` in
    /// `directory`, all given as bytes.
    fn find_bytes(&self, directory: &[u8], file_name: &[u8], extension: &[u8]) -> (entry: Option<
        &PackageEntry,
    >)
        ensures
            match found(self@.parts.types, directory@, file_name@, extension@) {
                Some(view) => entry matches Some(e) && e@ == view,
                None => entry is None,
            },
    {
        let ghost types = self@.parts.types;
        let mut t: usize = 0;
        while t < self.entries.len() && !bytes_equal(
            self.entries[t].file_type.as_str().as_bytes(),
            extension,
        )
            invariant
                t <= self.entries@.len(),
                types == self.entries@.map_values(|t: TypeEntries| t@),
                extension_index(types, extension@, 0) == extension_index(types, extension@, t as int),
            decreases self.entries@.len() - t,
        {
            t = t + 1;
        }
        if t >= self.entries.len() {
            return None;
        }
        let path = normalize(directory);
        let mut from: usize = 0;
        while from < path.len() && path[from] == SEPARATOR
            invariant
                from <= path@.len(),
                trim_from(path@, 0) == trim_from(path@, from as int),
            decreases path@.len() - from,
        {
            from = from + 1;
        }
        let mut to: usize = path.len();
        while to > 0 && path[to - 1] == SEPARATOR
            invariant
                to <= path@.len(),
                trim_to(path@, path@.len() as int) == trim_to(path@, to as int),
            decreases to,
        {
            to = to - 1;
        }
        let space: [u8; 1] = [0x20];
        let wanted: &[u8] = if from >= to {
            space.as_slice()
        } else {
            slice_subrange(path.as_slice(), from, to)
        };
        proof {
            assert(space@ =~= seq![0x20u8]);
            assert(wanted@ == wanted_directory(directory@));
        }
        let list = &self.entries[t].entries;
        let ghost views = types[t as int].entries;
        let mut e: usize = 0;
        while e < list.len() && !(bytes_equal(list[e].directory_name.as_str().as_bytes(), wanted)
            && bytes_equal(list[e].file_name.as_str().as_bytes(), file_name))
            invariant
                e <= list@.len(),
                views == list@.map_values(|e: PackageEntry| e@),
                entry_index(views, wanted@, file_name@, 0) == entry_index(
                    views,
                    wanted@,
                    file_name@,
                    e as int,
                ),
            decreases list@.len() - e,
        {
            e = e + 1;
        }
        if e >= list.len() {
            return None;
        }
        Some(&list[e])
    }

    /// The entry that a search for `file_name` in `directory` finds, both
    /// given as bytes.
    fn find_in_dir_bytes(&self, directory: &[u8], file_name: &[u8]) -> (entry: Option<&PackageEntry>)
        ensures
            match found_in_dir(self@.parts.types, directory@, file_name@) {
                Some(view) => entry matches Some(e) && e@ == view,
                None => entry is None,
            },
    {
        let len = file_name.len();
        match find_last(file_name, 0x2E) {
            Some(dot) => self.find_bytes(
                directory,
                slice_subrange(file_name, 0, dot),
                slice_subrange(file_name, dot + 1, len),
            ),
            None => {
                let none: [u8; 0] = [];
                proof {
                    assert(none@ =~= Seq::<u8>::empty());
                }
                self.find_bytes(directory, file_name, none.as_slice())
            },
        }
    }

    /// Searches for the entry at the path `file_path`.
    pub fn find_entry(&self, file_path: &str) -> (entry: Option<&PackageEntry>)
        ensures
            match found_by_path(self@.parts.types, file_path.spec_bytes()) {
                Some(view) => entry matches Some(e) && e@ == view,
                None => entry is None,
            },
    {
        let path = normalize(file_path.as_bytes());
        let len = path.len();
        match find_last(path.as_slice(), SEPARATOR) {
            Some(cut) => {
                let file_name = slice_subrange(path.as_slice(), cut + 1, len);
                let directory = slice_subrange(path.as_slice(), 0, cut);
                match self.find_in_dir_bytes(file_name, directory) {
                    Some(e) => Some(e),
                    None => None,
                }
            },
            None => {
                let none: [u8; 0] = [];
                proof {
                    assert(none@ =~= Seq::<u8>::empty());
                }
                match self.find_in_dir_bytes(path.as_slice(), none.as_slice()) {
                    Some(e) => Some(e),
                    None => None,
                }
            },
        }
    }

    /// Searches for the entry of the file `file_name` in `directory`. The
    /// name is cut at its last dot into the name proper and the ending.
    pub fn find_entry_in_dir(&self, directory: &str, file_name: &str) -> (entry: Option<&PackageEntry>)
        ensures
            match found_in_dir(self@.parts.types, directory.spec_bytes(), file_name.spec_bytes()) {
                Some(view) => entry matches Some(e) && e@ == view,
                None => entry is None,
            },
    {
        self.find_in_dir_bytes(directory.as_bytes(), file_name.as_bytes())
    }

    /// Searches for the entry of the file `file_name` with the ending
    /// `file_extension` in `directory`.
    pub fn find_entry_in_dir_with_extension(
        &self,
        directory: &str,
        file_name: &str,
        file_extension: &str,
    ) -> (entry: Option<&PackageEntry>)
        ensures
            match found(
                self@.parts.types,
                directory.spec_bytes(),
                file_name.spec_bytes(),
                file_extension.spec_bytes(),
            ) {
                Some(view) => entry matches Some(e) && e@ == view,
                None => entry is None,
            },
    {
        self.find_bytes(directory.as_bytes(), file_name.as_bytes(), file_extension.as_bytes())
    }
}

/// The CRC-32 checksum of `bytes`, as `crc::crc32::checksum_ieee` computes
/// it.
pub uninterp spec fn crc32_ieee(bytes: Seq<u8>) -> u32;

/// `crc::crc32::checksum_ieee`: the CRC-32 checksum of the bytes.
#[verifier::external_body]
fn checksum_ieee(bytes: &Vec<u8>) -> (sum: u32)
    ensures
        sum == crc32_ieee(bytes@),
{
    crc::crc32::checksum_ieee(bytes.as_slice())
}

/// The MD5 digest of `bytes`, as `md5::compute` computes it.
pub uninterp spec fn md5_digest(bytes: Seq<u8>) -> Seq<u8>;

/// `md5::compute`: the MD5 digest of the bytes, which has sixteen bytes.
#[verifier::external_body]
fn md5_compute(bytes: &Vec<u8>) -> (digest: Vec<u8>)
    ensures
        digest@ == md5_digest(bytes@),
        digest@.len() == 16,
{
    md5::compute(bytes.as_slice()).0.to_vec()
}

/// The declaration of `rsa::RSAPublicKey` for the verifier, which sees
/// nothing inside a value of it.
#[verifier::external_type_specification]
#[verifier::external_body]
pub struct ExRsaPublicKey(rsa::RSAPublicKey);

/// `rsa::RSAPublicKey::new` on a modulus and an exponent that are given
/// least significant byte first: the key, unless the two make none.
#[verifier::external_body]
fn rsa_public_key(modulus: &Vec<u8>, exponent: &Vec<u8>) -> (key: Option<rsa::RSAPublicKey>) {
    rsa::RSAPublicKey::new(
        rsa::BigUint::from_bytes_le(modulus.as_slice()),
        rsa::BigUint::from_bytes_le(exponent.as_slice()),
    ).ok()
}

/// `rsa::PublicKey::encrypt` with the padding of PKCS #1 v1.5 signatures
/// over SHA-1 and the system's random numbers. The call encrypts under the
/// two paddings for encryption only and answers every other padding with an
/// error, whatever the key and the data are: nothing is made of the data.
#[verifier::external_body]
fn rsa_encrypt(key: &rsa::RSAPublicKey, data: &Vec<u8>) -> (encrypted: Option<Vec<u8>>)
    ensures
        encrypted is None,
{
    rsa::PublicKey::encrypt(
        key,
        &mut rand::rngs::OsRng,
        rsa::PaddingScheme::PKCS1v15Sign { hash: Some(rsa::Hash::SHA1) },
        data.as_slice(),
    ).ok()
}

/// The words for an entry in another file of a package that is in one
/// file.
fn not_a_dir() -> (message: String)
    ensures
        message@ == "Given VPK is not a _dir, but entry is referencing an external archive."@,
{
    "Given VPK is not a _dir, but entry is referencing an external archive.".to_string()
}

/// The words for data with the wrong checksum.
fn crc_mismatch() -> (message: String)
    ensures
        message@ == "CRC32 mismatch for read data."@,
{
    "CRC32 mismatch for read data.".to_string()
}

/// The words for a package of the first version whose checksums are asked
/// for.
fn only_version_2() -> (message: String)
    ensures
        message@ == "Only version 2 is supported."@,
{
    "Only version 2 is supported.".to_string()
}

/// The words for a signature that does not fit.
fn signature_not_valid() -> (message: String)
    ensures
        message@ == "VPK signature is not valid."@,
{
    "VPK signature is not valid.".to_string()
}

/// The hexadecimal digit for `value`, in lower case.
pub open spec fn hex_char(value: nat) -> Seq<char> {
    if value == 0 {
        seq!['0']
    } else if value == 1 {
        seq!['1']
    } else if value == 2 {
        seq!['2']
    } else if value == 3 {
        seq!['3']
    } else if value == 4 {
        seq!['4']
    } else if value == 5 {
        seq!['5']
    } else if value == 6 {
        seq!['6']
    } else if value == 7 {
        seq!['7']
    } else if value == 8 {
        seq!['8']
    } else if value == 9 {
        seq!['9']
    } else if value == 10 {
        seq!['a']
    } else if value == 11 {
        seq!['b']
    } else if value == 12 {
        seq!['c']
    } else if value == 13 {
        seq!['d']
    } else if value == 14 {
        seq!['e']
    } else {
        seq!['f']
    }
}

/// The bytes in hexadecimal digits: two for each byte, the higher four
/// bits first.
pub open spec fn hex_text(bytes: Seq<u8>) -> Seq<char>
    decreases bytes.len(),
{
    if bytes.len() == 0 {
        Seq::empty()
    } else {
        hex_text(bytes.drop_last()) + hex_char(bytes.last() as nat / 16) + hex_char(
            bytes.last() as nat % 16,
        )
    }
}

/// The bytes as decimal numbers with a comma and a space between one and
/// the next.
pub open spec fn list_items(bytes: Seq<u8>) -> Seq<char>
    decreases bytes.len(),
{
    if bytes.len() == 0 {
        Seq::empty()
    } else if bytes.len() == 1 {
        decimal(bytes[0] as nat)
    } else {
        list_items(bytes.drop_last()) + ", "@ + decimal(bytes.last() as nat)
    }
}

/// The bytes as a list of decimal numbers in square brackets.
pub open spec fn list_text(bytes: Seq<u8>) -> Seq<char> {
    "["@ + list_items(bytes) + "]"@
}

/// What is said of a checksum that does not fit: `subject`, then in round
/// brackets the digest that was found, in hexadecimal digits, and the
/// checksum that was expected, as a list.
pub open spec fn mismatch_text(subject: Seq<char>, found: Seq<u8>, expected: Seq<u8>) -> Seq<char> {
    subject + hex_text(found) + " != expected "@ + list_text(expected) + ")."@
}

/// One hexadecimal digit.
fn hex_digit(value: u8) -> (digit: &'static str)
    requires
        value < 16,
    ensures
        digit@ == hex_char(value as nat),
{
    proof {
        reveal_strlit("0");
        reveal_strlit("1");
        reveal_strlit("2");
        reveal_strlit("3");
        reveal_strlit("4");
        reveal_strlit("5");
        reveal_strlit("6");
        reveal_strlit("7");
        reveal_strlit("8");
        reveal_strlit("9");
        reveal_strlit("a");
        reveal_strlit("b");
        reveal_strlit("c");
        reveal_strlit("d");
        reveal_strlit("e");
        reveal_strlit("f");
    }
    let digit = match value {
        0 => "0",
        1 => "1",
        2 => "2",
        3 => "3",
        4 => "4",
        5 => "5",
        6 => "6",
        7 => "7",
        8 => "8",
        9 => "9",
        10 => "a",
        11 => "b",
        12 => "c",
        13 => "d",
        14 => "e",
        _ => "f",
    };
    proof {
        assert(digit@ =~= hex_char(value as nat));
    }
    digit
}

/// The bytes as hexadecimal digits, two for each byte.
fn hex(bytes: &Vec<u8>) -> (text: String)
    ensures
        text@ == hex_text(bytes@),
{
    let mut text = String::new();
    let mut i: usize = 0;
    proof {
        assert(bytes@.take(0) =~= Seq::<u8>::empty());
    }
    while i < bytes.len()
        invariant
            i <= bytes@.len(),
            text@ == hex_text(bytes@.take(i as int)),
        decreases bytes@.len() - i,
    {
        let b = bytes[i];
        proof {
            assert(bytes@.take(i + 1).drop_last() =~= bytes@.take(i as int));
            assert(bytes@.take(i + 1).last() == b);
        }
        text.append(hex_digit(b / 16));
        text.append(hex_digit(b % 16));
        i = i + 1;
    }
    proof {
        assert(bytes@.take(i as int) =~= bytes@);
    }
    text
}

/// The bytes as a list of numbers in brackets.
fn list(bytes: &Vec<u8>) -> (text: String)
    ensures
        text@ == list_text(bytes@),
{
    let mut text = "[".to_owned();
    let mut i: usize = 0;
    proof {
        assert(bytes@.take(0) =~= Seq::<u8>::empty());
        assert("["@ + list_items(bytes@.take(0)) =~= "["@);
    }
    while i < bytes.len()
        invariant
            i <= bytes@.len(),
            text@ == "["@ + list_items(bytes@.take(i as int)),
        decreases bytes@.len() - i,
    {
        let ghost held = list_items(bytes@.take(i as int));
        let ghost number = decimal(bytes@[i as int] as nat);
        proof {
            assert(bytes@.take(i + 1).drop_last() =~= bytes@.take(i as int));
            assert(bytes@.take(i + 1).last() == bytes@[i as int]);
            assert(bytes@.take(i + 1)[0] == bytes@[0]);
        }
        if i > 0 {
            text.append(", ");
            proof {
                assert(("["@ + held) + ", "@ + number =~= "["@ + (held + ", "@ + number));
            }
        } else {
            proof {
                assert(held =~= Seq::<char>::empty());
                assert(("["@ + held) + number =~= "["@ + number);
            }
        }
        text.append(decimal_text(bytes[i] as u32).as_str());
        i = i + 1;
    }
    proof {
        assert(bytes@.take(i as int) =~= bytes@);
    }
    text.append("]");
    text
}

/// The words for a package whose checksum does not fit.
fn package_checksum_mismatch(found: &Vec<u8>, expected: &Vec<u8>) -> (message: String)
    ensures
        message@ == mismatch_text("Package checksum mismatch ("@, found@, expected@),
{
    "Package checksum mismatch (".to_owned().concat(hex(found).as_str()).concat(
        " != expected ",
    ).concat(list(expected).as_str()).concat(").")
}

/// The words for archive checksums whose checksum does not fit.
fn archive_checksum_mismatch(found: &Vec<u8>, expected: &Vec<u8>) -> (message: String)
    ensures
        message@ == mismatch_text("Archive MD5 entries checksum mismatch ("@, found@, expected@),
{
    "Archive MD5 entries checksum mismatch (".to_owned().concat(hex(found).as_str()).concat(
        " != expected ",
    ).concat(list(expected).as_str()).concat(").")
}

/// The decimal digit `d`.
pub open spec fn digit(d: nat) -> Seq<char> {
    if d == 0 {
        seq!['0']
    } else if d == 1 {
        seq!['1']
    } else if d == 2 {
        seq!['2']
    } else if d == 3 {
        seq!['3']
    } else if d == 4 {
        seq!['4']
    } else if d == 5 {
        seq!['5']
    } else if d == 6 {
        seq!['6']
    } else if d == 7 {
        seq!['7']
    } else if d == 8 {
        seq!['8']
    } else {
        seq!['9']
    }
}

/// The number `n` in decimal digits.
pub open spec fn decimal(n: nat) -> Seq<char>
    decreases n,
{
    if n < 10 {
        digit(n)
    } else {
        decimal(n / 10) + digit(n % 10)
    }
}

/// The decimal digit `d`.
fn digit_text(d: u32) -> (text: &'static str)
    requires
        d < 10,
    ensures
        text@ == digit(d as nat),
{
    proof {
        reveal_strlit("0");
        reveal_strlit("1");
        reveal_strlit("2");
        reveal_strlit("3");
        reveal_strlit("4");
        reveal_strlit("5");
        reveal_strlit("6");
        reveal_strlit("7");
        reveal_strlit("8");
        reveal_strlit("9");
    }
    let text = match d {
        0 => "0",
        1 => "1",
        2 => "2",
        3 => "3",
        4 => "4",
        5 => "5",
        6 => "6",
        7 => "7",
        8 => "8",
        _ => "9",
    };
    proof {
        assert(text@ =~= digit(d as nat));
    }
    text
}

/// The number `n` in decimal digits.
fn decimal_text(n: u32) -> (text: String)
    ensures
        text@ == decimal(n as nat),
    decreases n,
{
    if n < 10 {
        digit_text(n).to_owned()
    } else {
        decimal_text(n / 10).concat(digit_text(n % 10))
    }
}

/// The name of the file that holds archive `archive_index` of the package
/// named `file_name`: the package's name, an underscore, the number of the
/// archive, and the ending.
pub open spec fn archive_file_name(file_name: Seq<char>, archive_index: u16) -> Seq<char> {
    file_name + "_"@ + decimal(archive_index as nat) + ".vpk"@
}

/// The name of the file that holds archive `archive_index` of the package
/// named `file_name`.
fn archive_name(file_name: &String, archive_index: u16) -> (name: String)
    ensures
        name@ == archive_file_name(file_name@, archive_index),
{
    file_name.clone().concat("_").concat(decimal_text(archive_index as u32).as_str()).concat(".vpk")
}

/// Where the content of an entry stands.
#[derive(Debug)]
pub enum EntrySource {
    /// The entry has no content beyond the data that stands with it.
    Nowhere,
    /// In the package itself, at this offset.
    Package { offset: u32 },
    /// In the file of this name, at this offset.
    Archive { file_name: String, offset: u32 },
}

/// The modulus and the exponent of an RSA key, least significant byte
/// first.
#[derive(Debug)]
pub struct RsaKeyParameters {
    pub modulus: Vec<u8>,
    pub exponent: Vec<u8>,
}

/// `len` zero bytes.
fn zeros(len: usize) -> (bytes: Vec<u8>)
    ensures
        bytes@ == Seq::new(len as nat, |i: int| 0u8),
{
    let mut bytes: Vec<u8> = Vec::with_capacity(len);
    let mut i: usize = 0;
    while i < len
        invariant
            i <= len,
            bytes@.len() == i,
            forall|k: int| 0 <= k < i ==> bytes@[k] == 0u8,
        decreases len - i,
    {
        bytes.push(0);
        i = i + 1;
    }
    proof {
        assert(bytes@ =~= Seq::new(len as nat, |i: int| 0u8));
    }
    bytes
}

/// The `len` bytes of `source` at `offset`, filled up with zero bytes where
/// the bytes end.
fn fill_from(source: &Vec<u8>, offset: usize, len: usize) -> (bytes: Vec<u8>)
    ensures
        bytes@ == filled_at(source@, offset as int, len as int),
{
    let mut bytes: Vec<u8> = Vec::with_capacity(len);
    let mut i: usize = 0;
    while i < len
        invariant
            i <= len,
            bytes@.len() == i,
            forall|k: int| 0 <= k < i ==> bytes@[k] == filled_at(source@, offset as int, len as int)[k],
        decreases len - i,
    {
        if i < source.len() && offset < source.len() - i {
            bytes.push(source[offset + i]);
        } else {
            bytes.push(0);
        }
        i = i + 1;
    }
    proof {
        assert(bytes@ =~= filled_at(source@, offset as int, len as int));
    }
    bytes
}

/// What reading an entry gives whose content is the bytes `content`: room
/// for the data that stands with the entry, then the content, then that
/// data.
pub open spec fn entry_data(entry: EntryView, content: Seq<u8>) -> Seq<u8> {
    Seq::new(entry.small_data.len(), |i: int| 0u8) + content + entry.small_data
}

impl Package {
    /// The bytes of the package.
    pub fn data(&self) -> (data: &ByteReader)
        ensures
            data.bytes() == self@.bytes,
    {
        &self.reader
    }

    /// Whether the sizes of the header and of the sections add up within
    /// four bytes, so that offsets into the package can be computed.
    pub open spec fn sizes_fit(&self) -> bool {
        let header = self@.parts.header;
        header.header_size + header.tree_size + header.file_data_section_size
            + header.archive_md5_section_size + header.other_md5_section_size + 32 <= u32::MAX
    }

    /// Whether the sizes of the header and of the sections add up within
    /// four bytes.
    pub fn check_sizes(&self) -> (fit: bool)
        ensures
            fit == self.sizes_fit(),
    {
        let sum: u64 = self.header_size as u64 + self.tree_size as u64
            + self.file_data_section_size as u64 + self.archive_md5_section_size as u64
            + self.other_md5_section_size as u64 + 32;
        sum <= u32::MAX as u64
    }

    /// Where the content of `entry` stands.
    pub fn entry_source(&self, entry: &PackageEntry) -> (result: Result<EntrySource, PackageError>)
        requires
            self@.parts.header.header_size + self@.parts.header.tree_size + entry.offset <= u32::MAX,
        ensures
            entry.len == 0 ==> result matches Ok(EntrySource::Nowhere),
            entry.len > 0 && entry.archive_index == LOCAL_ARCHIVE ==> (result matches Ok(
                EntrySource::Package { offset },
            ) && offset == self@.parts.header.header_size + self@.parts.header.tree_size
                + entry.offset),
            entry.len > 0 && entry.archive_index != LOCAL_ARCHIVE && self@.is_dir_vpk ==> (
            result matches Ok(EntrySource::Archive { file_name, offset }) && offset == entry.offset
                && file_name@ == archive_file_name(self@.file_name, entry.archive_index)),
            entry.len > 0 && entry.archive_index != LOCAL_ARCHIVE && !self@.is_dir_vpk ==> (
            result matches Err(PackageError::FileError(m)) && m@
                == "Given VPK is not a _dir, but entry is referencing an external archive."@),
    {
        if entry.len == 0 {
            return Ok(EntrySource::Nowhere);
        }
        if entry.archive_index != LOCAL_ARCHIVE {
            if !self.is_dir_vpk {
                return Err(PackageError::FileError(not_a_dir()));
            }
            return Ok(
                EntrySource::Archive {
                    file_name: archive_name(&self.file_name, entry.archive_index),
                    offset: entry.offset,
                },
            );
        }
        Ok(EntrySource::Package { offset: self.header_size + self.tree_size + entry.offset })
    }

    /// Whether the content of `entry` stands in another file although the
    /// package is in one file.
    pub open spec fn needs_dir(&self, entry: EntryView) -> bool {
        entry.len > 0 && entry.archive_index != LOCAL_ARCHIVE && !self@.is_dir_vpk
    }

    /// Whether the content of `entry` stands in another file.
    pub open spec fn needs_archive(&self, entry: EntryView) -> bool {
        entry.len > 0 && entry.archive_index != LOCAL_ARCHIVE
    }

    /// What reading `entry` gives: room for the data that stands with the
    /// entry, then the entry's content from the package or from `archive`,
    /// then the data that stands with the entry.
    pub open spec fn entry_bytes(&self, entry: EntryView, archive: Option<&Vec<u8>>) -> Seq<u8> {
        entry_data(
            entry,
            if entry.len == 0 {
                Seq::<u8>::empty()
            } else if entry.archive_index == LOCAL_ARCHIVE {
                filled_at(
                    self@.bytes,
                    self@.parts.header.header_size + self@.parts.header.tree_size + entry.offset,
                    entry.len as int,
                )
            } else {
                filled_at(archive->0@, entry.offset as int, entry.len as int)
            },
        )
    }

    /// Reads the content of `entry`. `archive` holds the bytes of the file
    /// that [`Package::entry_source`] names, for an entry whose content
    /// stands in another file. The data is checked against the entry's
    /// checksum if `validate_crc` says so.
    pub fn read_entry(&self, entry: &PackageEntry, validate_crc: bool, archive: Option<&Vec<u8>>) -> (result:
        Result<Vec<u8>, PackageError>)
        requires
            self@.parts.header.header_size + self@.parts.header.tree_size + entry.offset <= u32::MAX,
            entry.small_data@.len() + entry.len <= usize::MAX,
        ensures
            self.needs_dir(entry@) ==> (result matches Err(PackageError::FileError(m)) && m@
                == "Given VPK is not a _dir, but entry is referencing an external archive."@),
            !self.needs_dir(entry@) && self.needs_archive(entry@) && archive is None ==> result == Err::<
                Vec<u8>,
                PackageError,
            >(PackageError::IOError(IOError::NotFound)),
            !self.needs_dir(entry@) && !(self.needs_archive(entry@) && archive is None)
                && validate_crc && entry.crc32 != crc32_ieee(self.entry_bytes(entry@, archive))
                ==> (result matches Err(PackageError::FileError(m)) && m@
                == "CRC32 mismatch for read data."@),
            !self.needs_dir(entry@) && !(self.needs_archive(entry@) && archive is None) && !(
            validate_crc && entry.crc32 != crc32_ieee(self.entry_bytes(entry@, archive))) ==> (
            result matches Ok(data) && data@ == self.entry_bytes(entry@, archive)),
    {
        let mut output = zeros(entry.small_data.len());
        let content = if entry.len > 0 {
            if entry.archive_index != LOCAL_ARCHIVE {
                if !self.is_dir_vpk {
                    return Err(PackageError::FileError(not_a_dir()));
                }
                match archive {
                    Some(bytes) => fill_from(bytes, entry.offset as usize, entry.len as usize),
                    None => {
                        return Err(PackageError::IOError(IOError::NotFound));
                    },
                }
            } else {
                let offset = self.header_size + self.tree_size + entry.offset;
                fill_from(self.reader.bytes_ref(), offset as usize, entry.len as usize)
            }
        } else {
            Vec::new()
        };
        let ghost room = output@;
        output.extend_from_slice(content.as_slice());
        proof {
            assert(output@ =~= room + content@);
        }
        let ghost with_content = output@;
        output.extend_from_slice(entry.small_data.as_slice());
        proof {
            assert(output@ =~= with_content + entry.small_data@);
        }
        if validate_crc && entry.crc32 != checksum_ieee(&output) {
            return Err(PackageError::FileError(crc_mismatch()));
        }
        Ok(output)
    }

    /// The bytes that the checksum of the whole file is taken of: the
    /// header, the tree, the files' data, the archive checksums, and the
    /// first two of the package's own checksums.
    pub open spec fn checked_bytes(&self) -> Seq<u8> {
        let header = self@.parts.header;
        filled_at(
            self@.bytes,
            0,
            header.header_size + header.tree_size + header.file_data_section_size
                + header.archive_md5_section_size + 32,
        )
    }

    /// The bytes of the section of archive checksums, as they are read for
    /// checking behind the bytes of [`Package::checked_bytes`]: where the
    /// package ends early, the bytes read before stay in their place.
    pub open spec fn archive_section_bytes(&self) -> Seq<u8> {
        let header = self@.parts.header;
        let at = header.header_size + header.tree_size + header.file_data_section_size;
        Seq::new(
            header.archive_md5_section_size as nat,
            |i: int|
                if at + i < self@.bytes.len() {
                    self@.bytes[at + i]
                } else {
                    self.checked_bytes()[i]
                },
        )
    }

    /// Whether the checksums of the package fit its bytes: the digest of
    /// the checked bytes and that of the section of archive checksums both
    /// are the checksum of the whole file.
    pub open spec fn checksums_fit(&self) -> bool {
        md5_digest(self.checked_bytes()) == self@.parts.whole_file_checksum && md5_digest(
            self.archive_section_bytes(),
        ) == self@.parts.whole_file_checksum
    }

    /// Whether the package has a public key and a signature.
    pub open spec fn is_signed(&self) -> bool {
        self@.parts.public_key.len() != 0 && self@.parts.signature.len() != 0
    }

    /// Checks the checksums and the signature of the package. `parameters`
    /// are those of the package's public key, where it could be read.
    pub fn verify_hashes(&self, parameters: Option<&RsaKeyParameters>) -> (result: Result<
        (),
        PackageError,
    >)
        requires
            self.sizes_fit(),
        ensures
            self@.parts.header.version != 2 ==> (result matches Err(PackageError::FileError(m))
                && m@ == "Only version 2 is supported."@),
            self@.parts.header.version == 2 && md5_digest(self.checked_bytes())
                != self@.parts.whole_file_checksum ==> (result matches Err(
                PackageError::FileError(m),
            ) && m@ == mismatch_text(
                "Package checksum mismatch ("@,
                md5_digest(self.checked_bytes()),
                self@.parts.whole_file_checksum,
            )),
            self@.parts.header.version == 2 && md5_digest(self.checked_bytes())
                == self@.parts.whole_file_checksum && md5_digest(self.archive_section_bytes())
                != self@.parts.whole_file_checksum ==> (result matches Err(
                PackageError::FileError(m),
            ) && m@ == mismatch_text(
                "Archive MD5 entries checksum mismatch ("@,
                md5_digest(self.archive_section_bytes()),
                self@.parts.archive_md5_entries_checksum,
            )),
            self@.parts.header.version == 2 && self.checksums_fit() && !self.is_signed()
                ==> result is Ok,
            self@.parts.header.version == 2 && self.checksums_fit() && self.is_signed() ==> (
            result matches Err(PackageError::FileError(m)) && m@
                == "VPK signature is not valid."@),
            result is Err ==> result matches Err(PackageError::FileError(m)),
    {
        if self.version != 2 {
            return Err(PackageError::FileError(only_version_2()));
        }
        let bytes = self.reader.bytes_ref();
        let total = self.header_size + self.tree_size + self.file_data_section_size
            + self.archive_md5_section_size + 32;
        let mut buffer = fill_from(bytes, 0, total as usize);
        let hash = md5_compute(&buffer);
        if !bytes_equal(hash.as_slice(), self.whole_file_checksum.as_slice()) {
            return Err(
                PackageError::FileError(package_checksum_mismatch(&hash, &self.whole_file_checksum)),
            );
        }
        let at = (self.header_size + self.tree_size + self.file_data_section_size) as usize;
        let size = self.archive_md5_section_size as usize;
        let ghost first = buffer@;
        let mut section: Vec<u8> = Vec::with_capacity(size);
        let mut i: usize = 0;
        while i < size
            invariant
                i <= size,
                size <= buffer@.len(),
                buffer@ == first,
                section@.len() == i,
                size == self@.parts.header.archive_md5_section_size,
                at == self@.parts.header.header_size + self@.parts.header.tree_size
                    + self@.parts.header.file_data_section_size,
                bytes@ == self@.bytes,
                first == self.checked_bytes(),
                forall|k: int| 0 <= k < i ==> section@[k] == self.archive_section_bytes()[k],
            decreases size - i,
        {
            if i < bytes.len() && at < bytes.len() - i {
                section.push(bytes[at + i]);
            } else {
                section.push(buffer[i]);
            }
            i = i + 1;
        }
        proof {
            assert(section@ =~= self.archive_section_bytes());
        }
        let hash = md5_compute(&section);
        if !bytes_equal(hash.as_slice(), self.whole_file_checksum.as_slice()) {
            return Err(
                PackageError::FileError(
                    archive_checksum_mismatch(&hash, &self.archive_md5_entries_checksum),
                ),
            );
        }
        if self.public_key.len() == 0 || self.signature.len() == 0 {
            return Ok(());
        }
        if !self.is_signature_valid(parameters) {
            return Err(PackageError::FileError(signature_not_valid()));
        }
        Ok(())
    }

    /// Whether what the key makes of `encrypted` is the signature.
    pub fn signature_matches(&self, encrypted: &Option<Vec<u8>>) -> (matches: bool)
        ensures
            matches == (encrypted matches Some(e) && e@ == self@.parts.signature),
    {
        match encrypted {
            Some(e) => bytes_equal(e.as_slice(), self.signature.as_slice()),
            None => false,
        }
    }

    /// Whether the signature of the package is what the package's public
    /// key, whose parameters are `parameters`, makes of the package's bytes
    /// under the padding of signatures. It never is: without parameters, or
    /// with parameters that make no key, there is nothing to compare, and a
    /// key makes nothing of the bytes under that padding.
    pub fn is_signature_valid(&self, parameters: Option<&RsaKeyParameters>) -> (valid: bool)
        requires
            self.sizes_fit(),
        ensures
            !valid,
    {
        let parameters = match parameters {
            Some(parameters) => parameters,
            None => {
                return false;
            },
        };
        let public_key = match rsa_public_key(&parameters.modulus, &parameters.exponent) {
            Some(key) => key,
            None => {
                return false;
            },
        };
        let total = self.header_size + self.tree_size + self.file_data_section_size
            + self.archive_md5_section_size + self.other_md5_section_size;
        let data = fill_from(self.reader.bytes_ref(), 0, total as usize);
        let enc_data = rsa_encrypt(&public_key, &data);
        self.signature_matches(&enc_data)
    }
}

} // verus!

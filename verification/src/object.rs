//! What a binary object asks of the dynamic linker, as the `goblin` crate
//! reads it from the object's bytes.
//!
//! `goblin` computes the entry address of a Mach-O binary with plain
//! arithmetic on numbers that it takes from the file, and does not return
//! where that arithmetic overflows. Before a Mach-O binary is handed to it
//! whole, its load commands are therefore read one by one, and a binary
//! whose entry address cannot be computed is not handed over.

use crate::bytes::occurs_at;
use crate::text::{fields, split_on, views};
use goblin::container::Endian;
use goblin::elf::Elf;
use goblin::mach::load_command::{CommandVariant, LoadCommand};
use goblin::mach::{parse_magic_and_ctx, Mach, MultiArch, SingleArch};
use vstd::prelude::*;
use vstd::slice::slice_subrange;

verus! {

/// What `Elf::parse` finds in `bytes`: nothing where it fails, otherwise the
/// object's `libraries` and its `runpaths`, each in the object's order.
pub uninterp spec fn elf_dynamic(bytes: Seq<u8>) -> Option<(Seq<Seq<char>>, Seq<Seq<char>>)>;

/// What `parse_magic_and_ctx` makes of the first bytes, read at offset 0:
/// nothing where they are no Mach-O magic number, otherwise whether the
/// binary is little-endian and whether it is a 64-bit binary.
pub uninterp spec fn mach_context(bytes: Seq<u8>) -> Option<(bool, bool)>;

/// What `LoadCommand::parse` reads at `offset` in the given byte order:
/// nothing where it fails, otherwise the command and the offset behind it.
pub uninterp spec fn mach_command(bytes: Seq<u8>, offset: usize, little_endian: bool) -> Option<
    (MachCommandView, usize),
>;

/// What `Mach::parse` makes of `bytes`.
pub uninterp spec fn mach_file(bytes: Seq<u8>) -> MachFileView;

/// The `offset` and the `size` of the entry that `MultiArch::iter_arches`
/// gives at `index` for the container made of `bytes`, if it gives one.
pub uninterp spec fn fat_arch_extent(bytes: Seq<u8>, index: usize) -> Option<(u32, u32)>;

/// The `libs` of the Mach-O binary that `MultiArch::get` finds at `index`
/// in the container made of `bytes`, if it finds one there.
pub uninterp spec fn fat_arch_libraries(bytes: Seq<u8>, index: usize) -> Option<Seq<Seq<char>>>;

/// A load command, as far as the entry address depends on it, as contracts
/// speak of it.
pub enum MachCommandView {
    Segment { name: Seq<u8>, vmaddr: u64, fileoff: u64 },
    Main { entryoff: u64 },
    Other,
}

/// A load command, as far as the entry address depends on it.
pub enum MachCommand {
    /// A segment, of 32 or 64 bits: its name, its address in memory and its
    /// offset in the file.
    Segment { name: Vec<u8>, vmaddr: u64, fileoff: u64 },
    /// The entry point: its offset in the text segment.
    Main { entryoff: u64 },
    /// Any other command.
    Other,
}

impl View for MachCommand {
    type V = MachCommandView;

    open spec fn view(&self) -> MachCommandView {
        match self {
            MachCommand::Segment { name, vmaddr, fileoff } => MachCommandView::Segment {
                name: name@,
                vmaddr: *vmaddr,
                fileoff: *fileoff,
            },
            MachCommand::Main { entryoff } => MachCommandView::Main { entryoff: *entryoff },
            MachCommand::Other => MachCommandView::Other,
        }
    }
}

/// What `Mach::parse` makes of a file's bytes, as contracts speak of it.
pub enum MachFileView {
    /// One Mach-O binary, with its `libs`.
    Single(Seq<Seq<char>>),
    /// A container of binaries for several architectures.
    Universal,
    /// Neither, with the words of the error.
    Unreadable(Seq<char>),
}

/// What `Mach::parse` makes of a file's bytes.
pub enum MachFile {
    Single(Vec<String>),
    Universal,
    Unreadable(String),
}

impl View for MachFile {
    type V = MachFileView;

    open spec fn view(&self) -> MachFileView {
        match self {
            MachFile::Single(libs) => MachFileView::Single(views(libs@)),
            MachFile::Universal => MachFileView::Universal,
            MachFile::Unreadable(cause) => MachFileView::Unreadable(cause@),
        }
    }
}

/// `Elf::parse`, reduced to the two lists that the checks read. Trusted to
/// equal `elf_dynamic`.
#[verifier::external_body]
fn parse_elf(bytes: &[u8]) -> (r: Option<(Vec<String>, Vec<String>)>)
    ensures
        match r {
            Some((libraries, runpaths)) => elf_dynamic(bytes@) == Some(
                (views(libraries@), views(runpaths@)),
            ),
            None => elf_dynamic(bytes@) is None,
        },
{
    match Elf::parse(bytes) {
        Ok(elf) => Some(
            (
                elf.libraries.iter().map(|s| s.to_string()).collect(),
                elf.runpaths.iter().map(|s| s.to_string()).collect(),
            ),
        ),
        Err(_) => None,
    }
}

/// `parse_magic_and_ctx` at offset 0, reduced to the byte order and the
/// width that it finds. Trusted to equal `mach_context`.
#[verifier::external_body]
fn read_mach_context(bytes: &[u8]) -> (r: Option<(bool, bool)>)
    ensures
        r == mach_context(bytes@),
{
    match parse_magic_and_ctx(bytes, 0) {
        Ok((_, Some(ctx))) => Some((ctx.is_little_endian(), ctx.is_big())),
        Ok((_, None)) => None,
        Err(_) => None,
    }
}

/// `LoadCommand::parse`, the command reduced to what the entry address
/// depends on. Trusted to equal `mach_command`.
#[verifier::external_body]
fn read_mach_command(bytes: &[u8], offset: usize, little_endian: bool) -> (r: Option<
    (MachCommand, usize),
>)
    ensures
        match r {
            Some((command, next)) => mach_command(bytes@, offset, little_endian) == Some(
                (command@, next),
            ),
            None => mach_command(bytes@, offset, little_endian) is None,
        },
{
    let mut next = offset;
    let command = match LoadCommand::parse(bytes, &mut next, Endian::from(little_endian)) {
        Ok(found) => found.command,
        Err(_) => return None,
    };
    let (vmaddr, fileoff, name) = match command {
        CommandVariant::Segment32(s) => (u64::from(s.vmaddr), u64::from(s.fileoff), s.segname),
        CommandVariant::Segment64(s) => (s.vmaddr, s.fileoff, s.segname),
        CommandVariant::Main(m) => return Some((MachCommand::Main { entryoff: m.entryoff }, next)),
        _ => return Some((MachCommand::Other, next)),
    };
    Some((MachCommand::Segment { name: name.to_vec(), vmaddr, fileoff }, next))
}

/// `Mach::parse`, reduced to the kind of file and, for a single binary, its
/// `libs`. It may be called only for bytes whose entry address can be
/// computed. Trusted to equal `mach_file`.
#[verifier::external_body]
fn parse_mach(bytes: &[u8]) -> (r: MachFile)
    requires
        !entry_overflows(bytes@),
    ensures
        r@ == mach_file(bytes@),
{
    match Mach::parse(bytes) {
        Ok(Mach::Binary(binary)) => MachFile::Single(
            binary.libs.iter().map(|s| s.to_string()).collect(),
        ),
        Ok(Mach::Fat(_)) => MachFile::Universal,
        Err(e) => MachFile::Unreadable(e.to_string()),
    }
}

/// `MultiArch::iter_arches` on the container that `MultiArch::new` makes of
/// `bytes`, reduced to where the entry at `index` says its binary lies.
/// Trusted to equal `fat_arch_extent`.
#[verifier::external_body]
fn read_fat_arch(bytes: &[u8], index: usize) -> (r: Option<(u32, u32)>)
    ensures
        r == fat_arch_extent(bytes@, index),
{
    match MultiArch::new(bytes) {
        Ok(fat) => match fat.iter_arches().nth(index) {
            Some(Ok(arch)) => Some((arch.offset, arch.size)),
            Some(Err(_)) => None,
            None => None,
        },
        Err(_) => None,
    }
}

/// `MultiArch::get` on the container that `MultiArch::new` makes of
/// `bytes`, reduced to the `libs` of the binary found. It may be called
/// only where the entry address of that binary can be computed. Trusted to
/// equal `fat_arch_libraries`.
#[verifier::external_body]
fn parse_fat_arch(bytes: &[u8], index: usize) -> (r: Option<Vec<String>>)
    requires
        !fat_entry_overflows(bytes@, index),
    ensures
        match r {
            Some(libraries) => fat_arch_libraries(bytes@, index) == Some(views(libraries@)),
            None => fat_arch_libraries(bytes@, index) is None,
        },
{
    match MultiArch::new(bytes) {
        Ok(fat) => match fat.get(index) {
            Ok(SingleArch::MachO(binary)) => Some(
                binary.libs.iter().map(|s| s.to_string()).collect(),
            ),
            Ok(SingleArch::Archive(_)) => None,
            Err(_) => None,
        },
        Err(_) => None,
    }
}

/// The number that four bytes at `at` stand for in the given byte order.
pub open spec fn u32_at(bytes: Seq<u8>, at: int, little_endian: bool) -> int {
    if little_endian {
        bytes[at] + 0x100 * bytes[at + 1] + 0x1_0000 * bytes[at + 2] + 0x100_0000 * bytes[at + 3]
    } else {
        bytes[at + 3] + 0x100 * bytes[at + 2] + 0x1_0000 * bytes[at + 1] + 0x100_0000 * bytes[at]
    }
}

/// Where the load commands of a Mach-O binary stand.
pub struct CommandTable {
    pub little_endian: bool,
    pub first: usize,
    pub count: nat,
}

/// Where the load commands stand, by the binary's header: the header is 28
/// bytes long, or 32 in a 64-bit binary, and holds the number of commands
/// at offset 16 and their size in bytes at offset 20. There is no table
/// where the bytes begin with no Mach-O magic number, are fewer than 32, or
/// where the commands would be shorter than 8 bytes each or longer than the
/// file: `goblin` reads no command of such a file.
pub open spec fn command_table(bytes: Seq<u8>) -> Option<CommandTable> {
    match mach_context(bytes) {
        Some((little_endian, is_64)) => {
            let count = u32_at(bytes, 16, little_endian);
            let size = u32_at(bytes, 20, little_endian);
            if bytes.len() < 32 || count > size / 8 || size > bytes.len() {
                None
            } else {
                Some(
                    CommandTable {
                        little_endian,
                        first: if is_64 {
                            32
                        } else {
                            28
                        },
                        count: count as nat,
                    },
                )
            }
        },
        None => None,
    }
}

/// What the entry address is computed from: the address and the file offset
/// of the text segment, and the offset of the entry point.
pub struct EntryParts {
    pub text: Option<(u64, u64)>,
    pub main: Option<u64>,
}

/// The bytes `__TEXT` and a zero byte.
pub open spec fn text_name() -> Seq<u8> {
    seq![0x5fu8, 0x5fu8, 0x54u8, 0x45u8, 0x58u8, 0x54u8, 0u8]
}

/// `parts` after `command` was read: the first segment whose name begins
/// with `__TEXT` and a zero byte is the text segment, and the first entry
/// point command gives the offset.
pub open spec fn noted(parts: EntryParts, command: MachCommandView) -> EntryParts {
    match command {
        MachCommandView::Segment { name, vmaddr, fileoff } => if parts.text is None && occurs_at(
            name,
            0,
            text_name(),
        ) {
            EntryParts { text: Some((vmaddr, fileoff)), main: parts.main }
        } else {
            parts
        },
        MachCommandView::Main { entryoff } => if parts.main is None {
            EntryParts { text: parts.text, main: Some(entryoff) }
        } else {
            parts
        },
        MachCommandView::Other => parts,
    }
}

/// `parts` after `left` commands were read from `offset` on, or nothing
/// where one of them cannot be read.
pub open spec fn scanned(
    bytes: Seq<u8>,
    offset: usize,
    left: nat,
    little_endian: bool,
    parts: EntryParts,
) -> Option<EntryParts>
    decreases left,
{
    if left == 0 {
        Some(parts)
    } else {
        match mach_command(bytes, offset, little_endian) {
            Some((command, next)) => scanned(
                bytes,
                next,
                (left - 1) as nat,
                little_endian,
                noted(parts, command),
            ),
            None => None,
        }
    }
}

/// What the entry address of the binary in `bytes` is computed from, where
/// all its load commands can be read.
pub open spec fn entry_parts(bytes: Seq<u8>) -> Option<EntryParts> {
    match command_table(bytes) {
        Some(table) => scanned(
            bytes,
            table.first,
            table.count,
            table.little_endian,
            EntryParts { text: None, main: None },
        ),
        None => None,
    }
}

/// Whether the entry address of the binary in `bytes` cannot be computed:
/// the binary has an entry point and a text segment, and the segment's file
/// offset exceeds its address, or the address of the entry point exceeds 64
/// bits.
pub open spec fn entry_overflows(bytes: Seq<u8>) -> bool {
    match entry_parts(bytes) {
        Some(parts) => match (parts.text, parts.main) {
            (Some((vmaddr, fileoff)), Some(entryoff)) => vmaddr < fileoff || vmaddr - fileoff
                + entryoff > u64::MAX,
            _ => false,
        },
        None => false,
    }
}

/// The bytes of `size` bytes from `offset` on that `FatArch::slice` takes
/// from `bytes`: none where they do not all lie within `bytes`.
pub open spec fn arch_slice(bytes: Seq<u8>, offset: u32, size: u32) -> Seq<u8> {
    if offset + size <= bytes.len() {
        bytes.subrange(offset as int, offset + size)
    } else {
        Seq::empty()
    }
}

/// Whether the entry address of the binary at `index` in the container made
/// of `bytes` cannot be computed.
pub open spec fn fat_entry_overflows(bytes: Seq<u8>, index: usize) -> bool {
    match fat_arch_extent(bytes, index) {
        Some((offset, size)) => entry_overflows(arch_slice(bytes, offset, size)),
        None => false,
    }
}

/// The number that the four bytes at `at` stand for.
pub fn read_u32(bytes: &[u8], at: usize, little_endian: bool) -> (n: u64)
    requires
        at + 4 <= bytes.len(),
    ensures
        n == u32_at(bytes@, at as int, little_endian),
        n <= u32::MAX,
{
    let b0: u64 = bytes[at] as u64;
    let b1: u64 = bytes[at + 1] as u64;
    let b2: u64 = bytes[at + 2] as u64;
    let b3: u64 = bytes[at + 3] as u64;
    if little_endian {
        b0 + 0x100 * b1 + 0x1_0000 * b2 + 0x100_0000 * b3
    } else {
        b3 + 0x100 * b2 + 0x1_0000 * b1 + 0x100_0000 * b0
    }
}

/// Whether the entry address of the Mach-O binary in `bytes` cannot be
/// computed.
pub fn entry_address_overflows(bytes: &[u8]) -> (r: bool)
    ensures
        r == entry_overflows(bytes@),
{
    let (little_endian, is_64) = match read_mach_context(bytes) {
        Some(context) => context,
        None => {
            return false;
        },
    };
    if bytes.len() < 32 {
        return false;
    }
    let count = read_u32(bytes, 16, little_endian);
    let size = read_u32(bytes, 20, little_endian);
    if count > size / 8 || size > bytes.len() as u64 {
        return false;
    }
    let first: usize = if is_64 {
        32
    } else {
        28
    };
    let mark: [u8; 7] = [0x5fu8, 0x5fu8, 0x54u8, 0x45u8, 0x58u8, 0x54u8, 0u8];
    assert(mark@ =~= text_name());
    let mut text: Option<(u64, u64)> = None;
    let mut main: Option<u64> = None;
    let mut offset: usize = first;
    let mut left: u64 = count;
    while left > 0
        invariant
            mark@ == text_name(),
            entry_parts(bytes@) == scanned(
                bytes@,
                offset,
                left as nat,
                little_endian,
                EntryParts { text, main },
            ),
        decreases left,
    {
        match read_mach_command(bytes, offset, little_endian) {
            None => {
                return false;
            },
            Some((command, next)) => {
                match command {
                    MachCommand::Segment { name, vmaddr, fileoff } => {
                        if text.is_none() && crate::bytes::matches_at(
                            name.as_slice(),
                            0,
                            mark.as_slice(),
                        ) {
                            text = Some((vmaddr, fileoff));
                        }
                    },
                    MachCommand::Main { entryoff } => {
                        if main.is_none() {
                            main = Some(entryoff);
                        }
                    },
                    MachCommand::Other => {},
                }
                offset = next;
                left = left - 1;
            },
        }
    }
    match (text, main) {
        (Some((vmaddr, fileoff)), Some(entryoff)) => vmaddr < fileoff || vmaddr - fileoff
            > u64::MAX - entryoff,
        _ => false,
    }
}

/// Whether the entry address of the binary at `index` in the container of
/// `bytes` cannot be computed.
pub fn fat_entry_address_overflows(bytes: &[u8], index: usize) -> (r: bool)
    ensures
        r == fat_entry_overflows(bytes@, index),
{
    match read_fat_arch(bytes, index) {
        None => false,
        Some((offset, size)) => {
            let start: usize = offset as usize;
            let len: usize = size as usize;
            if len <= bytes.len() && start <= bytes.len() - len {
                entry_address_overflows(slice_subrange(bytes, start, start + len))
            } else {
                let none: [u8; 0] = [];
                assert(none@ =~= Seq::<u8>::empty());
                entry_address_overflows(none.as_slice())
            }
        },
    }
}

/// What an object requires, as contracts speak of it.
pub struct ObjectNeeds {
    pub required_libraries: Seq<Seq<char>>,
    pub runpaths: Seq<Seq<char>>,
}

/// What an object requires: the libraries it names, in its order, and the
/// directories it asks to be searched for them. A Mach-O object names each
/// library by its full path and has no search directories.
#[derive(Debug, Clone, PartialEq, Eq)]
pub struct ObjectView {
    pub required_libraries: Vec<String>,
    pub runpaths: Vec<String>,
}

impl View for ObjectView {
    type V = ObjectNeeds;

    open spec fn view(&self) -> ObjectNeeds {
        ObjectNeeds {
            required_libraries: views(self.required_libraries@),
            runpaths: views(self.runpaths@),
        }
    }
}

/// Why bytes are no Mach-O object that can be checked, as contracts speak
/// of it.
pub enum MachoErrorView {
    Unreadable(Seq<char>),
    BadEntry,
    Unsupported,
}

/// Why bytes are no Mach-O object that can be checked.
#[derive(Debug, Clone, PartialEq, Eq)]
pub enum MachoError {
    /// The bytes cannot be read as a Mach-O file, for the cause given.
    Unreadable(String),
    /// The entry address of the binary cannot be computed.
    BadEntry,
    /// The bytes are a container whose first entry is no Mach-O binary
    /// that can be read.
    Unsupported,
}

impl View for MachoError {
    type V = MachoErrorView;

    open spec fn view(&self) -> MachoErrorView {
        match self {
            MachoError::Unreadable(cause) => MachoErrorView::Unreadable(cause@),
            MachoError::BadEntry => MachoErrorView::BadEntry,
            MachoError::Unsupported => MachoErrorView::Unsupported,
        }
    }
}

/// The search directories that an ELF object's run-path entries give: the
/// directories of the first entry, which a colon separates. Further entries
/// are not read.
pub open spec fn search_directories(entries: Seq<Seq<char>>) -> Seq<Seq<char>> {
    if entries.len() == 0 {
        Seq::empty()
    } else {
        fields(entries[0], ':')
    }
}

/// What the ELF object in `bytes` requires, if `bytes` hold one.
pub open spec fn elf_needs(bytes: Seq<u8>) -> Option<ObjectNeeds> {
    match elf_dynamic(bytes) {
        Some((libraries, entries)) => Some(
            ObjectNeeds { required_libraries: libraries, runpaths: search_directories(entries) },
        ),
        None => None,
    }
}

/// The library references of the Mach-O object in `bytes`, or why there are
/// none. Of a container for several architectures only the first binary is
/// read. A binary whose entry address cannot be computed is not read.
pub open spec fn macho_libraries(bytes: Seq<u8>) -> Result<Seq<Seq<char>>, MachoErrorView> {
    if entry_overflows(bytes) {
        Err(MachoErrorView::BadEntry)
    } else {
        match mach_file(bytes) {
            MachFileView::Single(libraries) => Ok(libraries),
            MachFileView::Universal => if fat_entry_overflows(bytes, 0) {
                Err(MachoErrorView::Unsupported)
            } else {
                match fat_arch_libraries(bytes, 0) {
                    Some(libraries) => Ok(libraries),
                    None => Err(MachoErrorView::Unsupported),
                }
            },
            MachFileView::Unreadable(cause) => Err(MachoErrorView::Unreadable(cause)),
        }
    }
}

/// What the Mach-O object in `bytes` requires, if `bytes` hold one.
pub open spec fn macho_needs(bytes: Seq<u8>) -> Option<ObjectNeeds> {
    match macho_libraries(bytes) {
        Ok(libraries) => Some(
            ObjectNeeds { required_libraries: libraries, runpaths: Seq::empty() },
        ),
        Err(_) => None,
    }
}

impl ObjectView {
    /// The view of an ELF object with the given required libraries and
    /// run-path entries.
    pub fn of_elf(libraries: Vec<String>, entries: Vec<String>) -> (view: ObjectView)
        ensures
            view@ == (ObjectNeeds {
                required_libraries: views(libraries@),
                runpaths: search_directories(views(entries@)),
            }),
    {
        let runpaths = if entries.len() == 0 {
            Vec::new()
        } else {
            split_on(entries[0].as_str(), ':')
        };
        assert(views(runpaths@) =~= search_directories(views(entries@)));
        ObjectView { required_libraries: libraries, runpaths }
    }

    /// The view of a Mach-O object with the given library references.
    pub fn of_macho(libraries: Vec<String>) -> (view: ObjectView)
        ensures
            view@ == (ObjectNeeds {
                required_libraries: views(libraries@),
                runpaths: Seq::empty(),
            }),
    {
        let runpaths: Vec<String> = Vec::new();
        assert(views(runpaths@) =~= Seq::<Seq<char>>::empty());
        ObjectView { required_libraries: libraries, runpaths }
    }

    /// Reads `bytes` as an ELF object.
    pub fn from_elf(bytes: &[u8]) -> (r: Option<ObjectView>)
        ensures
            match r {
                Some(view) => elf_needs(bytes@) == Some(view@),
                None => elf_needs(bytes@) is None,
            },
    {
        match parse_elf(bytes) {
            Some((libraries, entries)) => Some(ObjectView::of_elf(libraries, entries)),
            None => None,
        }
    }

    /// Reads `bytes` as a Mach-O object, and says why where they are none.
    pub fn read_macho(bytes: &[u8]) -> (r: Result<ObjectView, MachoError>)
        ensures
            match r {
                Ok(view) => macho_libraries(bytes@) == Ok::<Seq<Seq<char>>, MachoErrorView>(
                    view@.required_libraries,
                ) && view@.runpaths == Seq::<Seq<char>>::empty(),
                Err(e) => macho_libraries(bytes@) == Err::<Seq<Seq<char>>, MachoErrorView>(e@),
            },
    {
        if entry_address_overflows(bytes) {
            return Err(MachoError::BadEntry);
        }
        match parse_mach(bytes) {
            MachFile::Single(libraries) => Ok(ObjectView::of_macho(libraries)),
            MachFile::Universal => {
                if fat_entry_address_overflows(bytes, 0) {
                    return Err(MachoError::Unsupported);
                }
                match parse_fat_arch(bytes, 0) {
                    Some(libraries) => Ok(ObjectView::of_macho(libraries)),
                    None => Err(MachoError::Unsupported),
                }
            },
            MachFile::Unreadable(cause) => Err(MachoError::Unreadable(cause)),
        }
    }

    /// Reads `bytes` as a Mach-O object.
    pub fn from_macho(bytes: &[u8]) -> (r: Option<ObjectView>)
        ensures
            match r {
                Some(view) => macho_needs(bytes@) == Some(view@),
                None => macho_needs(bytes@) is None,
            },
    {
        match ObjectView::read_macho(bytes) {
            Ok(view) => Some(view),
            Err(_) => None,
        }
    }
}

} // verus!

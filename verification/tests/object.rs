use mktool::check_shlibs::policy::ObjectFormat;
use mktool::check_shlibs::resolve::CheckState;
use mktool::check_shlibs::CheckShlibs;
use mktool::context::{DeclaredDependency, DependencyKind, PackageAdmin, ValidationContext};
use mktool::object::{
    entry_address_overflows, fat_entry_address_overflows, read_u32, MachoError, ObjectView,
};

fn strings(list: &[&str]) -> Vec<String> {
    list.iter().map(|s| s.to_string()).collect()
}

fn le16(out: &mut Vec<u8>, v: u16) {
    out.extend_from_slice(&v.to_le_bytes());
}

fn le32(out: &mut Vec<u8>, v: u32) {
    out.extend_from_slice(&v.to_le_bytes());
}

fn le64(out: &mut Vec<u8>, v: u64) {
    out.extend_from_slice(&v.to_le_bytes());
}

fn be32(out: &mut Vec<u8>, v: u32) {
    out.extend_from_slice(&v.to_be_bytes());
}

/// A little-endian ELF64 shared object with a dynamic section that names
/// the given libraries and run-path entries.
fn elf_with(libraries: &[&str], runpaths: &[&str]) -> Vec<u8> {
    let mut strtab = vec![0u8];
    let mut offsets = Vec::new();
    for s in libraries.iter().chain(runpaths.iter()) {
        offsets.push(strtab.len() as u64);
        strtab.extend_from_slice(s.as_bytes());
        strtab.push(0);
    }
    let entries = libraries.len() + runpaths.len() + 3;
    let dyn_off: u64 = 64 + 2 * 56;
    let dyn_size = (entries * 16) as u64;
    let str_off = dyn_off + dyn_size;
    let total = str_off + strtab.len() as u64;

    let mut out = vec![0x7f, b'E', b'L', b'F', 2, 1, 1, 0, 0, 0, 0, 0, 0, 0, 0, 0];
    le16(&mut out, 3);
    le16(&mut out, 62);
    le32(&mut out, 1);
    le64(&mut out, 0);
    le64(&mut out, 64);
    le64(&mut out, 0);
    le32(&mut out, 0);
    le16(&mut out, 64);
    le16(&mut out, 56);
    le16(&mut out, 2);
    le16(&mut out, 64);
    le16(&mut out, 0);
    le16(&mut out, 0);
    /* PT_LOAD over the whole file, then PT_DYNAMIC. */
    for (kind, flags, offset, size, align) in
        [(1u32, 5u32, 0u64, total, 0x1000u64), (2, 6, dyn_off, dyn_size, 8)]
    {
        le32(&mut out, kind);
        le32(&mut out, flags);
        le64(&mut out, offset);
        le64(&mut out, offset);
        le64(&mut out, offset);
        le64(&mut out, size);
        le64(&mut out, size);
        le64(&mut out, align);
    }
    for (i, offset) in offsets.iter().enumerate() {
        let tag: u64 = if i < libraries.len() { 1 } else { 29 };
        le64(&mut out, tag);
        le64(&mut out, *offset);
    }
    le64(&mut out, 5);
    le64(&mut out, str_off);
    le64(&mut out, 10);
    le64(&mut out, strtab.len() as u64);
    le64(&mut out, 0);
    le64(&mut out, 0);
    out.extend_from_slice(&strtab);
    assert_eq!(out.len() as u64, total);
    out
}

/// A command that names a library: its own name (0xd) or one to load (0xc).
fn dylib(cmd: u32, name: &str) -> Vec<u8> {
    let mut out = Vec::new();
    let size = (24 + name.len() + 1 + 7) / 8 * 8;
    le32(&mut out, cmd);
    le32(&mut out, size as u32);
    le32(&mut out, 24);
    le32(&mut out, 0);
    le32(&mut out, 0x10000);
    le32(&mut out, 0x10000);
    out.extend_from_slice(name.as_bytes());
    out.resize(size, 0);
    out
}

/// A 64-bit segment command without sections and without data.
fn segment64(name: &str, vmaddr: u64, fileoff: u64) -> Vec<u8> {
    let mut out = Vec::new();
    le32(&mut out, 0x19);
    le32(&mut out, 72);
    out.extend_from_slice(name.as_bytes());
    out.resize(24, 0);
    le64(&mut out, vmaddr);
    le64(&mut out, 0);
    le64(&mut out, fileoff);
    le64(&mut out, 0);
    for _ in 0..4 {
        le32(&mut out, 0);
    }
    out
}

/// A 32-bit segment command without sections and without data.
fn segment32(name: &str, vmaddr: u32, fileoff: u32) -> Vec<u8> {
    let mut out = Vec::new();
    le32(&mut out, 0x1);
    le32(&mut out, 56);
    out.extend_from_slice(name.as_bytes());
    out.resize(24, 0);
    le32(&mut out, vmaddr);
    le32(&mut out, 0);
    le32(&mut out, fileoff);
    for _ in 0..5 {
        le32(&mut out, 0);
    }
    out
}

/// The command that gives the offset of the entry point.
fn entry_point(entryoff: u64) -> Vec<u8> {
    let mut out = Vec::new();
    le32(&mut out, 0x8000_0028);
    le32(&mut out, 24);
    le64(&mut out, entryoff);
    le64(&mut out, 0);
    out
}

/// A little-endian Mach-O file of 64 or of 32 bits with the given load
/// commands.
fn macho_of(is_64: bool, commands: &[Vec<u8>]) -> Vec<u8> {
    let size: usize = commands.iter().map(|c| c.len()).sum();
    let mut out = Vec::new();
    le32(&mut out, if is_64 { 0xfeedfacf } else { 0xfeedface });
    le32(&mut out, if is_64 { 0x0100_0007 } else { 7 });
    le32(&mut out, 3);
    le32(&mut out, 2);
    le32(&mut out, commands.len() as u32);
    le32(&mut out, size as u32);
    le32(&mut out, 0);
    if is_64 {
        le32(&mut out, 0);
    }
    for command in commands {
        out.extend_from_slice(command);
    }
    out
}

/// A little-endian 64-bit Mach-O library with the given name and
/// references.
fn macho_with(id: Option<&str>, libraries: &[&str]) -> Vec<u8> {
    let commands: Vec<Vec<u8>> = id
        .iter()
        .map(|name| dylib(0xd, name))
        .chain(libraries.iter().map(|name| dylib(0xc, name)))
        .collect();
    macho_of(true, &commands)
}

/// A container of the given binaries, one for each architecture.
fn universal(binaries: &[Vec<u8>]) -> Vec<u8> {
    let mut out = Vec::new();
    be32(&mut out, 0xcafebabe);
    be32(&mut out, binaries.len() as u32);
    let mut offset = 8 + 20 * binaries.len();
    for binary in binaries {
        be32(&mut out, 0x0100_0007);
        be32(&mut out, 3);
        be32(&mut out, offset as u32);
        be32(&mut out, binary.len() as u32);
        be32(&mut out, 0);
        offset += binary.len();
    }
    for binary in binaries {
        out.extend_from_slice(binary);
    }
    out
}

#[test]
fn elf_run_path_is_the_first_entry_split_at_colons() {
    let view = ObjectView::of_elf(strings(&["libc.so"]), strings(&["/a:/b::c", "/d:/e"]));
    assert_eq!(view.required_libraries, vec!["libc.so"]);
    assert_eq!(view.runpaths, vec!["/a", "/b", "", "c"]);
    let view = ObjectView::of_elf(strings(&["libc.so", "libm.so"]), vec![]);
    assert_eq!(view.required_libraries, vec!["libc.so", "libm.so"]);
    assert_eq!(view.runpaths, Vec::<String>::new());
    let view = ObjectView::of_elf(vec![], strings(&[""]));
    assert_eq!(view.runpaths, vec![""]);
}

#[test]
fn macho_view_has_no_run_path() {
    let view = ObjectView::of_macho(strings(&["self", "/usr/lib/libz.dylib"]));
    assert_eq!(view.required_libraries, vec!["self", "/usr/lib/libz.dylib"]);
    assert_eq!(view.runpaths, Vec::<String>::new());
}

#[test]
fn elf_object_is_read() {
    let bytes = elf_with(&["libfoo.so", "libbar.so.1"], &["/opt/pkg/lib:/usr/pkg/lib"]);
    let view = ObjectView::from_elf(&bytes).expect("an ELF object");
    assert_eq!(view.required_libraries, vec!["libfoo.so", "libbar.so.1"]);
    assert_eq!(view.runpaths, vec!["/opt/pkg/lib", "/usr/pkg/lib"]);
    let view = ObjectView::from_elf(&elf_with(&["libc.so"], &[])).expect("an ELF object");
    assert_eq!(view.required_libraries, vec!["libc.so"]);
    assert_eq!(view.runpaths, Vec::<String>::new());
    assert!(ObjectView::from_macho(&bytes).is_none());
    assert!(ObjectView::from_elf(&bytes[..60]).is_none());
}

#[test]
fn macho_object_is_read() {
    let bytes = macho_with(
        Some("/opt/pkg/lib/libself.dylib"),
        &["/opt/pkg/lib/libfoo.dylib", "/usr/lib/libSystem.B.dylib"],
    );
    let view = ObjectView::from_macho(&bytes).expect("a Mach-O object");
    assert_eq!(
        view.required_libraries,
        vec!["/opt/pkg/lib/libself.dylib", "/opt/pkg/lib/libfoo.dylib", "/usr/lib/libSystem.B.dylib"]
    );
    assert_eq!(view.runpaths, Vec::<String>::new());
    let view = ObjectView::from_macho(&macho_with(None, &["/usr/lib/libz.dylib"])).unwrap();
    assert_eq!(view.required_libraries, vec!["self", "/usr/lib/libz.dylib"]);
    assert!(ObjectView::from_elf(&bytes).is_none());
}

#[test]
fn universal_binary_is_read_by_its_first_architecture() {
    let first = macho_with(None, &["/opt/pkg/lib/libfirst.dylib"]);
    let second = macho_with(None, &["/opt/pkg/lib/libsecond.dylib"]);
    let view = ObjectView::from_macho(&universal(&[first.clone(), second.clone()])).unwrap();
    assert_eq!(view.required_libraries, vec!["self", "/opt/pkg/lib/libfirst.dylib"]);
    let view = ObjectView::from_macho(&universal(&[second, first])).unwrap();
    assert_eq!(view.required_libraries, vec!["self", "/opt/pkg/lib/libsecond.dylib"]);
    assert!(ObjectView::from_macho(&universal(&[])).is_none());
    assert!(ObjectView::from_macho(&universal(&[b"no object at all".to_vec()])).is_none());
}

#[test]
fn numbers_are_read_in_the_byte_order_given() {
    let bytes = [0u8, 0x12, 0x34, 0x56, 0x78, 0xff];
    assert_eq!(read_u32(&bytes, 1, false), 0x1234_5678);
    assert_eq!(read_u32(&bytes, 1, true), 0x7856_3412);
    assert_eq!(read_u32(&bytes, 2, true), 0xff78_5634);
    assert_eq!(read_u32(&[0xff; 4], 0, false), 0xffff_ffff);
}

#[test]
fn executable_with_an_entry_point_is_read() {
    let lib = dylib(0xc, "/usr/lib/libSystem.B.dylib");
    for bytes in [
        macho_of(true, &[segment64("__TEXT", 0x1_0000_0000, 0), entry_point(0x3f00), lib.clone()]),
        macho_of(true, &[entry_point(8), segment64("__PAGEZERO", 0, 64), segment64("__TEXT", 8, 8)]),
        macho_of(true, &[segment64("__TEXT", 4, 4), segment64("__TEXT", 0, 9), entry_point(1)]),
        macho_of(true, &[segment64("__TEXT", 9, 1), entry_point(0), entry_point(u64::MAX)]),
        macho_of(true, &[segment64("__TEXT", u64::MAX, 0), entry_point(0)]),
        macho_of(true, &[segment64("__TEXTURE", 0, 9), segment64("__TEXT", 9, 9), entry_point(1)]),
        macho_of(true, &[segment64("__DATA", 0, 9), lib.clone()]),
        macho_of(false, &[segment32("__TEXT", 0x1000, 0), entry_point(0x10), lib.clone()]),
    ] {
        assert!(!entry_address_overflows(&bytes));
        let view = ObjectView::read_macho(&bytes).expect("a Mach-O object");
        assert_eq!(view.required_libraries[0], "self");
    }
}

#[test]
fn binary_whose_entry_address_overflows_is_not_read() {
    for bytes in [
        macho_of(true, &[segment64("__TEXT", 0, 8), entry_point(0x3f00)]),
        macho_of(true, &[entry_point(0), segment64("__DATA", 9, 0), segment64("__TEXT", 7, 8)]),
        macho_of(true, &[segment64("__TEXT", u64::MAX, 0), entry_point(1)]),
        macho_of(true, &[segment64("__TEXT", 9, 1), entry_point(u64::MAX), entry_point(0)]),
        macho_of(false, &[segment32("__TEXT", 0x1000, 0x1001), entry_point(0)]),
    ] {
        assert!(entry_address_overflows(&bytes));
        assert_eq!(ObjectView::read_macho(&bytes), Err(MachoError::BadEntry));
        assert!(ObjectView::from_macho(&bytes).is_none());
        let fat = universal(&[bytes.clone()]);
        assert!(fat_entry_address_overflows(&fat, 0));
        assert!(!fat_entry_address_overflows(&fat, 1));
        assert_eq!(ObjectView::read_macho(&fat), Err(MachoError::Unsupported));
        let second = universal(&[macho_with(None, &["/usr/lib/libz.dylib"]), bytes]);
        assert!(!fat_entry_address_overflows(&second, 0));
        assert!(fat_entry_address_overflows(&second, 1));
        assert!(ObjectView::read_macho(&second).is_ok());
    }
}

#[test]
fn bytes_that_are_no_macho_file_have_no_entry_to_compute() {
    for bytes in [&b""[..], &b"\xcf\xfa\xed\xfe"[..], &[0u8; 64][..], &b"#!/bin/sh\n"[..]] {
        assert!(!entry_address_overflows(bytes));
        assert!(!fat_entry_address_overflows(bytes, 0));
    }
    let mut cut = macho_of(true, &[segment64("__TEXT", 0, 8), entry_point(0)]);
    cut.truncate(cut.len() - 1);
    assert!(!entry_address_overflows(&cut));
    assert!(ObjectView::from_macho(&cut).is_none());
}

#[test]
fn macho_errors_say_why() {
    match ObjectView::read_macho(b"#!/bin/sh\necho hello\n") {
        Err(MachoError::Unreadable(cause)) => assert!(!cause.is_empty()),
        other => panic!("{:?}", other),
    }
    assert_eq!(ObjectView::read_macho(&universal(&[])), Err(MachoError::Unsupported));
    assert_eq!(
        ObjectView::read_macho(&universal(&[b"!<arch>\nno archive at all".to_vec()])),
        Err(MachoError::Unsupported)
    );
}

fn context() -> ValidationContext {
    ValidationContext {
        cross_destdir: None,
        destdir: "/destdir".to_string(),
        system_paths: vec!["/usr/lib".to_string()],
        wrkdir: "/wrk".to_string(),
        extra_wrkref_dirs: vec![],
        toxic_patterns: vec![],
        declared_dependencies: vec![DeclaredDependency {
            kind: DependencyKind::from_word("build"),
            pattern: "libfoo>=1".to_string(),
            package: "libfoo-1.0".to_string(),
        }],
        package_admin: PackageAdmin { command: "pkg_admin".to_string(), args: vec![] },
        skip_system_libs: false,
    }
}

#[test]
fn objects_are_checked_from_their_bytes() {
    let load = || {
        Some(
            "file: /opt/pkg/lib/libfoo.so pkg: libfoo-1.0\nfile: /opt/pkg/lib/libfoo.dylib pkg: libfoo-1.0\n"
                .to_string(),
        )
    };
    let probe = |path: &str| path.starts_with("/opt/pkg/lib/libfoo.");
    let lines = |format: ObjectFormat, bytes: &[u8]| -> Vec<String> {
        let mut state = CheckState::new();
        CheckShlibs::new(format)
            .check_dso("/opt/pkg/bin/mutt", bytes, &context(), &mut state, &probe, &load)
            .iter()
            .map(|d| d.to_line())
            .collect()
    };
    let elf = elf_with(&["libfoo.so", "libbar.so"], &["/opt/pkg/lib"]);
    assert_eq!(
        lines(ObjectFormat::Elf, &elf),
        strings(&[
            "/opt/pkg/bin/mutt: /opt/pkg/lib/libfoo.so: libfoo-1.0 is not a runtime dependency",
            "/opt/pkg/bin/mutt: missing library: libbar.so",
        ])
    );
    assert_eq!(lines(ObjectFormat::MachO, &elf), Vec::<String>::new());
    let macho = macho_with(
        Some("/opt/pkg/lib/libgone.dylib"),
        &["/opt/pkg/lib/libfoo.dylib", "/opt/pkg/lib/libbar.dylib"],
    );
    assert_eq!(
        lines(ObjectFormat::MachO, &macho),
        strings(&[
            "/opt/pkg/bin/mutt: /opt/pkg/lib/libfoo.dylib: libfoo-1.0 is not a runtime dependency",
            "/opt/pkg/bin/mutt: missing library: /opt/pkg/lib/libbar.dylib",
        ])
    );
    assert_eq!(lines(ObjectFormat::Elf, &macho), Vec::<String>::new());
}

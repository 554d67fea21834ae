use vmod::descriptor::{decode_descriptor, read_cstr};
use vmod::elf::{locate, locate_in_table, vmod_symbol_name, ElfTable, ExportEntry, SectionInfo};
use vmod::errors::VmodError;
use vmod::types::Type;
use vmod::vmod::read_vmod_data;

fn entry(name: Option<&str>, section_index: usize) -> ExportEntry {
    ExportEntry { name: name.map(|s| s.to_string()), section_index }
}

#[test]
fn expected_symbol_name_is_exact() {
    assert_eq!(vmod_symbol_name("std"), "Vmod_std_Data");
    assert_eq!(vmod_symbol_name(""), "Vmod__Data");
}

#[test]
fn locate_uses_full_table_index_and_section_geometry() {
    let t = ElfTable {
        syms: vec![
            entry(Some("other"), 0),
            entry(None, 0),
            entry(Some("Vmod_test_Data"), 1),
        ],
        sections: vec![
            SectionInfo { file_offset: 100, entry_size: 8 },
            SectionInfo { file_offset: 200, entry_size: 16 },
        ],
    };
    // matched at full-table index 2: 200 + 2 * 16
    assert_eq!(locate_in_table(&t, &"Vmod_test_Data".to_string()), Ok(232));
}

#[test]
fn locate_picks_first_match_and_reports_absent_names() {
    let t = ElfTable {
        syms: vec![entry(Some("dup"), 0), entry(Some("dup"), 1)],
        sections: vec![
            SectionInfo { file_offset: 10, entry_size: 4 },
            SectionInfo { file_offset: 1000, entry_size: 1 },
        ],
    };
    assert_eq!(locate_in_table(&t, &"dup".to_string()), Ok(10));
    assert_eq!(
        locate_in_table(&t, &"missing".to_string()),
        Err(VmodError::SymbolNotFound)
    );
}

#[test]
fn locate_rejects_invalid_section_index() {
    let t = ElfTable {
        syms: vec![entry(Some("sym"), 5)],
        sections: vec![SectionInfo { file_offset: 0, entry_size: 0 }],
    };
    assert_eq!(locate_in_table(&t, &"sym".to_string()), Err(VmodError::SectionNotFound));
}

#[test]
fn garbage_bytes_are_a_malformed_image() {
    let bytes = vec![1u8, 2, 3, 4, 5, 6, 7, 8];
    assert_eq!(locate(&bytes, "test"), Err(VmodError::MalformedImage));
    assert_eq!(read_vmod_data(&bytes, "test"), Err(VmodError::MalformedImage));
}

#[test]
fn read_cstr_recovers_bytes_exactly() {
    let b = vec![1u8, 65, 66, 67, 0, 68];
    assert_eq!(read_cstr(&b, 1), Ok(vec![65, 66, 67]));
    assert_eq!(read_cstr(&b, 4), Ok(vec![]));
    assert_eq!(read_cstr(&b, 6), Err(VmodError::OutOfBounds));
    assert_eq!(read_cstr(&b, 5), Err(VmodError::UnterminatedString));
}

fn put_u32(buf: &mut [u8], off: usize, v: u32) {
    buf[off..off + 4].copy_from_slice(&v.to_le_bytes());
}

fn put_u64(buf: &mut [u8], off: usize, v: u64) {
    buf[off..off + 8].copy_from_slice(&v.to_le_bytes());
}

fn put_text(buf: &mut Vec<u8>, s: &[u8]) -> u64 {
    let at = buf.len() as u64;
    buf.extend_from_slice(s);
    buf.push(0);
    at
}

/// A synthetic 64-byte record with its text fields stored after it.
fn sample_image() -> Vec<u8> {
    let mut buf = vec![0u8; 64];
    let fid = put_text(&mut buf, b"file-id-123");
    let name = put_text(&mut buf, b"testmod");
    let proto = put_text(&mut buf, b"proto text");
    let json = put_text(&mut buf, br#"[["$FUNC","hello",[["STRING"],null,null]]]"#);
    let abi = put_text(&mut buf, b"Varnish ABI");
    put_u32(&mut buf, 0, 13);
    put_u32(&mut buf, 4, 3);
    put_u64(&mut buf, 8, fid);
    put_u64(&mut buf, 16, name);
    put_u64(&mut buf, 24, 0xfeed);
    put_u32(&mut buf, 32, 9);
    put_u64(&mut buf, 40, proto);
    put_u64(&mut buf, 48, json);
    put_u64(&mut buf, 56, abi);
    buf
}

#[test]
fn descriptor_fields_are_recovered_exactly() {
    let buf = sample_image();
    let d = decode_descriptor(&buf, 0).expect("decode failed");
    assert_eq!(d.vrt_major, 13);
    assert_eq!(d.vrt_minor, 3);
    assert_eq!(d.file_id, "file-id-123");
    assert_eq!(d.name, "testmod");
    assert_eq!(d.func, 0xfeed);
    assert_eq!(d.func_len, 9);
    assert_eq!(d.proto, "proto text");
    assert_eq!(d.json, r#"[["$FUNC","hello",[["STRING"],null,null]]]"#);
    assert_eq!(d.abi, "Varnish ABI");
}

#[test]
fn invalid_text_bytes_are_replaced_not_dropped() {
    let mut buf = sample_image();
    // overwrite the name text with a byte that is not valid UTF-8
    let name_off = u64::from_le_bytes(buf[16..24].try_into().unwrap()) as usize;
    buf[name_off] = 0x61;
    buf[name_off + 1] = 0xff;
    buf[name_off + 2] = 0;
    let d = decode_descriptor(&buf, 0).expect("decode failed");
    assert_eq!(d.name, "a\u{fffd}");
}

#[test]
fn descriptor_error_cases() {
    let short = vec![0u8; 63];
    assert_eq!(decode_descriptor(&short, 0), Err(VmodError::TruncatedData));
    let buf = sample_image();
    assert_eq!(decode_descriptor(&buf, buf.len() - 63), Err(VmodError::TruncatedData));

    // a field offset at the buffer's end is out of bounds
    let mut oob = sample_image();
    let n = oob.len() as u64;
    put_u64(&mut oob, 8, n);
    assert_eq!(decode_descriptor(&oob, 0), Err(VmodError::OutOfBounds));

    // text that never terminates within the buffer
    let mut unterminated = sample_image();
    let n = unterminated.len();
    put_u64(&mut unterminated, 8, (n - 2) as u64);
    unterminated[n - 2] = 7;
    unterminated[n - 1] = 7;
    assert_eq!(decode_descriptor(&unterminated, 0), Err(VmodError::UnterminatedString));
}

/// A minimal shared-object image: one identity-mapped load segment, a
/// dynamic segment naming a symbol table with two entries (the null
/// symbol and `Vmod_test_Data`), a SysV hash table giving the count, two
/// section headers, and a real descriptor record with its text fields at
/// the offset the locator computes.
fn minimal_elf() -> Vec<u8> {
    let dynstr: u64 = 176;
    let hash: u64 = 192;
    let dynsym: u64 = 216;
    let dynamic: u64 = 264;
    let shdrs: u64 = 360;
    let sec_off: u64 = 0x500;
    let sec_ent: u64 = 0x40;
    let desc: usize = (sec_off + sec_ent) as usize; // full-table index 1

    let mut b = vec![0u8; 0x600];
    // ELF header
    b[0..8].copy_from_slice(&[0x7f, 0x45, 0x4c, 0x46, 2, 1, 1, 0]);
    b[16..18].copy_from_slice(&3u16.to_le_bytes()); // e_type: shared object
    b[18..20].copy_from_slice(&62u16.to_le_bytes()); // e_machine: x86-64
    b[20..24].copy_from_slice(&1u32.to_le_bytes()); // e_version
    put_u64(&mut b, 32, 64); // e_phoff
    put_u64(&mut b, 40, shdrs); // e_shoff
    b[52..54].copy_from_slice(&64u16.to_le_bytes()); // e_ehsize
    b[54..56].copy_from_slice(&56u16.to_le_bytes()); // e_phentsize
    b[56..58].copy_from_slice(&2u16.to_le_bytes()); // e_phnum
    b[58..60].copy_from_slice(&64u16.to_le_bytes()); // e_shentsize
    b[60..62].copy_from_slice(&2u16.to_le_bytes()); // e_shnum
    b[62..64].copy_from_slice(&0u16.to_le_bytes()); // e_shstrndx

    // program header 0: PT_LOAD, identity mapping of the whole file
    put_u32(&mut b, 64, 1);
    put_u32(&mut b, 68, 4);
    put_u64(&mut b, 72, 0); // p_offset
    put_u64(&mut b, 80, 0); // p_vaddr
    put_u64(&mut b, 88, 0); // p_paddr
    put_u64(&mut b, 96, 0x10000); // p_filesz
    put_u64(&mut b, 104, 0x10000); // p_memsz
    put_u64(&mut b, 112, 1); // p_align
    // program header 1: PT_DYNAMIC
    put_u32(&mut b, 120, 2);
    put_u32(&mut b, 124, 4);
    put_u64(&mut b, 128, dynamic);
    put_u64(&mut b, 136, dynamic);
    put_u64(&mut b, 144, dynamic);
    put_u64(&mut b, 152, 96); // p_filesz: six entries
    put_u64(&mut b, 160, 96);
    put_u64(&mut b, 168, 8);

    // dynamic string table
    b[dynstr as usize..dynstr as usize + 16].copy_from_slice(b"\0Vmod_test_Data\0");
    // SysV hash table: one bucket, two chain entries
    put_u32(&mut b, hash as usize, 1);
    put_u32(&mut b, hash as usize + 4, 2); // nchain: the symbol count
    put_u32(&mut b, hash as usize + 8, 0);
    put_u32(&mut b, hash as usize + 12, 0);
    put_u32(&mut b, hash as usize + 16, 0);
    // dynamic symbols: the null symbol, then the record's symbol
    let s1 = dynsym as usize + 24;
    put_u32(&mut b, s1, 1); // st_name: offset in the string table
    b[s1 + 4] = 0x11; // st_info
    b[s1 + 6..s1 + 8].copy_from_slice(&1u16.to_le_bytes()); // st_shndx
    // dynamic entries
    let d = dynamic as usize;
    put_u64(&mut b, d, 4); // DT_HASH
    put_u64(&mut b, d + 8, hash);
    put_u64(&mut b, d + 16, 5); // DT_STRTAB
    put_u64(&mut b, d + 24, dynstr);
    put_u64(&mut b, d + 32, 6); // DT_SYMTAB
    put_u64(&mut b, d + 40, dynsym);
    put_u64(&mut b, d + 48, 10); // DT_STRSZ
    put_u64(&mut b, d + 56, 16);
    put_u64(&mut b, d + 64, 11); // DT_SYMENT
    put_u64(&mut b, d + 72, 24);
    put_u64(&mut b, d + 80, 0); // DT_NULL
    put_u64(&mut b, d + 88, 0);

    // section headers: the null section, then the record's section
    let s = shdrs as usize + 64;
    put_u32(&mut b, s, 0); // sh_name
    put_u32(&mut b, s + 4, 1); // sh_type: PROGBITS
    put_u64(&mut b, s + 24, sec_off); // sh_offset
    put_u64(&mut b, s + 32, 0x80); // sh_size
    put_u64(&mut b, s + 48, 1); // sh_addralign
    put_u64(&mut b, s + 56, sec_ent); // sh_entsize

    // the descriptor record at the located offset, texts after the image
    let fid = put_text(&mut b, b"fid-xyz");
    let name = put_text(&mut b, b"test");
    let proto = put_text(&mut b, b"int hello()");
    let json = put_text(&mut b, br#"[["$FUNC","hello",[["STRING"],null,null,["INT","n"]]]]"#);
    let abi = put_text(&mut b, b"ABI 7.1");
    put_u32(&mut b, desc, 7);
    put_u32(&mut b, desc + 4, 1);
    put_u64(&mut b, desc + 8, fid);
    put_u64(&mut b, desc + 16, name);
    put_u64(&mut b, desc + 24, 0xabcd);
    put_u32(&mut b, desc + 32, 3);
    put_u64(&mut b, desc + 40, proto);
    put_u64(&mut b, desc + 48, json);
    put_u64(&mut b, desc + 56, abi);
    b
}

#[test]
fn whole_extraction_from_a_synthetic_image() {
    let image = minimal_elf();
    assert_eq!(locate(&image, "test"), Ok(0x540));
    assert_eq!(locate(&image, "absent"), Err(VmodError::SymbolNotFound));

    let v = read_vmod_data(&image, "test").expect("extraction failed");
    assert_eq!(v.vrt_major, 7);
    assert_eq!(v.vrt_minor, 1);
    assert_eq!(v.file_id, "fid-xyz");
    assert_eq!(v.name, "test");
    assert_eq!(v.func, 0xabcd);
    assert_eq!(v.func_len, 3);
    assert_eq!(v.proto, "int hello()");
    assert_eq!(v.abi, "ABI 7.1");
    assert_eq!(v.scope.properties.len(), 1);
    match &v.scope.properties[0] {
        (k, Type::Func(f)) => {
            assert_eq!(k, "hello");
            assert_eq!(f.signature.as_deref(), Some("(INT n)"));
            assert_eq!(f.ret.as_deref(), Some(&Type::Str));
        }
        other => panic!("expected a function, got {:?}", other),
    }
}

//! The symbol locator: the dynamic export table of a shared-object image
//! is scanned for the module's data record, and the record's byte offset
//! within the file image is computed from the matched entry's table index
//! and its section's file offset and entry size.

use vstd::prelude::*;
use vstd::string::StringExecFns;

use crate::errors::VmodError;
use crate::types::compare_strings;

verus! {

/// One entry of the dynamic export table: its name as resolved through
/// the dynamic string table (`None` where the table has none at the
/// stored offset), and its section index.
#[derive(Debug, PartialEq, Eq)]
pub struct ExportEntry {
    pub name: Option<String>,
    pub section_index: usize,
}

/// What symbol location reads of one section header: its file offset and
/// its per-entry size.
#[derive(Clone, Copy, Debug, PartialEq, Eq)]
pub struct SectionInfo {
    pub file_offset: u64,
    pub entry_size: u64,
}

/// The parts of a shared-object image that symbol location reads.
#[derive(Debug, PartialEq, Eq)]
pub struct ElfTable {
    pub syms: Vec<ExportEntry>,
    pub sections: Vec<SectionInfo>,
}

/// Mathematical counterpart of `ExportEntry`.
pub struct ExportEntrySpec {
    pub name: Option<Seq<char>>,
    pub section_index: usize,
}

/// Mathematical counterpart of `ElfTable`.
pub struct ElfTableSpec {
    pub syms: Seq<ExportEntrySpec>,
    pub sections: Seq<SectionInfo>,
}

/// The view of one export entry.
pub open spec fn entry_view(e: ExportEntry) -> ExportEntrySpec {
    ExportEntrySpec {
        name: match e.name {
            Some(s) => Some(s@),
            None => None,
        },
        section_index: e.section_index,
    }
}

/// The views of the first `n` export entries, in table order.
pub open spec fn syms_view_to(v: &Vec<ExportEntry>, n: int) -> Seq<ExportEntrySpec>
    decreases n,
{
    if n <= 0 {
        Seq::empty()
    } else {
        syms_view_to(v, n - 1).push(entry_view(v@[n - 1]))
    }
}

/// The first `n` section entries, in header order.
pub open spec fn sections_view_to(v: &Vec<SectionInfo>, n: int) -> Seq<SectionInfo>
    decreases n,
{
    if n <= 0 {
        Seq::empty()
    } else {
        sections_view_to(v, n - 1).push(v@[n - 1])
    }
}

/// The view of the whole table.
pub open spec fn table_view(t: &ElfTable) -> ElfTableSpec {
    ElfTableSpec {
        syms: syms_view_to(&t.syms, t.syms@.len() as int),
        sections: sections_view_to(&t.sections, t.sections@.len() as int),
    }
}

/// The viewed prefixes have the prefix length and hold each entry's view.
pub proof fn lemma_table_view(t: &ElfTable)
    ensures
        table_view(t).syms.len() == t.syms@.len(),
        table_view(t).sections.len() == t.sections@.len(),
        forall|i: int|
            0 <= i < t.syms@.len() ==> table_view(t).syms[i] == entry_view(#[trigger] t.syms@[i]),
        forall|i: int|
            0 <= i < t.sections@.len() ==> table_view(t).sections[i] == #[trigger] t.sections@[i],
{
    lemma_syms_view(&t.syms, t.syms@.len() as int);
    lemma_sections_view(&t.sections, t.sections@.len() as int);
}

proof fn lemma_syms_view(v: &Vec<ExportEntry>, n: int)
    requires
        0 <= n <= v@.len(),
    ensures
        syms_view_to(v, n).len() == n,
        forall|i: int| 0 <= i < n ==> syms_view_to(v, n)[i] == entry_view(#[trigger] v@[i]),
    decreases n,
{
    if n > 0 {
        lemma_syms_view(v, n - 1);
        assert(syms_view_to(v, n) == syms_view_to(v, n - 1).push(entry_view(v@[n - 1])));
    } else {
        assert(syms_view_to(v, n) == Seq::<ExportEntrySpec>::empty());
    }
}

proof fn lemma_sections_view(v: &Vec<SectionInfo>, n: int)
    requires
        0 <= n <= v@.len(),
    ensures
        sections_view_to(v, n).len() == n,
        forall|i: int| 0 <= i < n ==> sections_view_to(v, n)[i] == #[trigger] v@[i],
    decreases n,
{
    if n > 0 {
        lemma_sections_view(v, n - 1);
        assert(sections_view_to(v, n) == sections_view_to(v, n - 1).push(v@[n - 1]));
    } else {
        assert(sections_view_to(v, n) == Seq::<SectionInfo>::empty());
    }
}

/// What `goblin::elf::Elf::parse` yields on these bytes — the dynamic
/// symbols with names resolved through the dynamic string table, and the
/// section headers — or `None` where the bytes are no ELF image.
pub uninterp spec fn elf_table_of(b: Seq<u8>) -> Option<ElfTableSpec>;

/// Relies on goblin::elf::Elf::parse: whether the bytes parse as an ELF
/// image, and the dynamic symbol table, dynamic string table and section
/// headers it carries, are functions of the bytes alone.
#[verifier::external_body]
fn parse_elf_table(bytes: &Vec<u8>) -> (r: Option<ElfTable>)
    ensures
        match r {
            Some(t) => elf_table_of(bytes@) == Some(table_view(&t)),
            None => elf_table_of(bytes@) is None,
        },
{
    let elf = match goblin::elf::Elf::parse(bytes.as_slice()) {
        Ok(e) => e,
        Err(_) => return None,
    };
    let syms = elf.dynsyms.iter().map(|sym| ExportEntry {
        name: elf.dynstrtab.get_at(sym.st_name).map(str::to_string),
        section_index: sym.st_shndx,
    }).collect();
    let sections = elf.section_headers.iter().map(|sh| SectionInfo {
        file_offset: sh.sh_offset,
        entry_size: sh.sh_entsize,
    }).collect();
    Some(ElfTable { syms, sections })
}

/// The expected export name for a module: `Vmod_<name>_Data`, exact and
/// case-sensitive.
pub open spec fn spec_symbol_name(module: Seq<char>) -> Seq<char> {
    "Vmod_"@ + module + "_Data"@
}

/// The index of the first export whose resolved name is the given one.
pub open spec fn first_match(syms: Seq<ExportEntrySpec>, name: Seq<char>, i: int) -> Option<int>
    decreases syms.len() - i,
{
    if i < 0 || i >= syms.len() {
        None
    } else if syms[i].name == Some(name) {
        Some(i)
    } else {
        first_match(syms, name, i + 1)
    }
}

/// Where the named record lies in the file image: the matched entry's
/// section's file offset, plus the entry's position in the full export
/// table times that section's entry size. The offset follows the
/// producer's table-index convention deliberately, not the usual
/// resolution through the symbol's own value.
pub open spec fn spec_locate(t: ElfTableSpec, sym: Seq<char>) -> Result<int, VmodError> {
    match first_match(t.syms, sym, 0) {
        None => Err(VmodError::SymbolNotFound),
        Some(i) => {
            if t.syms[i].section_index >= t.sections.len() {
                Err(VmodError::SectionNotFound)
            } else {
                Ok(
                    t.sections[t.syms[i].section_index as int].file_offset + i * t.sections[
                        t.syms[i].section_index as int
                    ].entry_size,
                )
            }
        },
    }
}

/// The expected export name, built from the module name.
pub fn vmod_symbol_name(module: &str) -> (r: String)
    ensures
        r@ == spec_symbol_name(module@),
{
    let s = String::from_str("Vmod_");
    let s = s.concat(module);
    let s = s.concat("_Data");
    proof {
        assert(s@ =~= "Vmod_"@ + module@ + "_Data"@);
    }
    s
}

/// Scan the export table for the symbol and compute the record's file
/// offset; an offset past the address space is out of bounds.
#[verifier::loop_isolation(false)]
pub fn locate_in_table(t: &ElfTable, sym: &String) -> (r: Result<usize, VmodError>)
    ensures
        match spec_locate(table_view(t), sym@) {
            Err(e) => r == Err::<usize, VmodError>(e),
            Ok(v) => if v <= usize::MAX as int {
                r == Ok::<usize, VmodError>(v as usize)
            } else {
                r == Err::<usize, VmodError>(VmodError::OutOfBounds)
            },
        },
{
    let ghost tv = table_view(t);
    proof {
        lemma_table_view(t);
    }
    let n = t.syms.len();
    let mut i: usize = 0;
    while i < n
        invariant
            i <= n,
            first_match(tv.syms, sym@, 0) == first_match(tv.syms, sym@, i as int),
        decreases n - i,
    {
        let matched: bool = match &t.syms[i].name {
            Some(nm) => compare_strings(nm, sym),
            None => false,
        };
        if matched {
            proof {
                assert(tv.syms[i as int].name == Some(sym@));
                assert(first_match(tv.syms, sym@, i as int) == Some(i as int));
            }
            let sec_idx = t.syms[i].section_index;
            if sec_idx >= t.sections.len() {
                return Err(VmodError::SectionNotFound);
            }
            let sec = &t.sections[sec_idx];
            let ghost v = tv.sections[sec_idx as int].file_offset + (
            i as int) * tv.sections[sec_idx as int].entry_size;
            proof {
                assert(usize::MAX as int <= u64::MAX as int);
            }
            let prod: u64 = match (i as u64).checked_mul(sec.entry_size) {
                Some(p) => p,
                None => {
                    proof {
                        assert(v > u64::MAX as int);
                    }
                    return Err(VmodError::OutOfBounds);
                },
            };
            let total: u64 = match prod.checked_add(sec.file_offset) {
                Some(s) => s,
                None => {
                    proof {
                        assert(v > u64::MAX as int);
                    }
                    return Err(VmodError::OutOfBounds);
                },
            };
            if total <= usize::MAX as u64 {
                return Ok(total as usize);
            } else {
                return Err(VmodError::OutOfBounds);
            }
        }
        proof {
            assert(tv.syms[i as int].name != Some(sym@));
            assert(first_match(tv.syms, sym@, i as int) == first_match(
                tv.syms,
                sym@,
                i as int + 1,
            ));
        }
        i += 1;
    }
    proof {
        assert(first_match(tv.syms, sym@, n as int) == None::<int>);
    }
    Err(VmodError::SymbolNotFound)
}

/// Locate the module's data record in a shared-object image: parse the
/// image, scan the export table for `Vmod_<name>_Data`, and compute the
/// record's byte offset.
pub fn locate(bytes: &Vec<u8>, module_name: &str) -> (r: Result<usize, VmodError>)
    ensures
        match elf_table_of(bytes@) {
            None => r == Err::<usize, VmodError>(VmodError::MalformedImage),
            Some(t) => match spec_locate(t, spec_symbol_name(module_name@)) {
                Err(e) => r == Err::<usize, VmodError>(e),
                Ok(v) => if v <= usize::MAX as int {
                    r == Ok::<usize, VmodError>(v as usize)
                } else {
                    r == Err::<usize, VmodError>(VmodError::OutOfBounds)
                },
            },
        },
{
    let table = match parse_elf_table(bytes) {
        Some(t) => t,
        None => {
            return Err(VmodError::MalformedImage);
        },
    };
    let expected = vmod_symbol_name(module_name);
    locate_in_table(&table, &expected)
}

/// Where the named symbol stands first at a known table index and its
/// section is valid, the located offset is exactly the section's file
/// offset plus the index times the section's entry size.
pub proof fn lemma_locate_offset(t: ElfTableSpec, sym: Seq<char>, i: int)
    requires
        0 <= i < t.syms.len(),
        t.syms[i].name == Some(sym),
        forall|j: int| 0 <= j < i ==> (#[trigger] t.syms[j].name) != Some(sym),
        t.syms[i].section_index < t.sections.len(),
    ensures
        spec_locate(t, sym) == Ok::<int, VmodError>(
            t.sections[t.syms[i].section_index as int].file_offset + i * t.sections[
                t.syms[i].section_index as int
            ].entry_size,
        ),
{
    lemma_first_match_at(t.syms, sym, 0, i);
}

/// Where no export resolves to the name, location fails with
/// `SymbolNotFound`.
pub proof fn lemma_locate_absent(t: ElfTableSpec, sym: Seq<char>)
    requires
        forall|j: int| 0 <= j < t.syms.len() ==> (#[trigger] t.syms[j].name) != Some(sym),
    ensures
        spec_locate(t, sym) == Err::<int, VmodError>(VmodError::SymbolNotFound),
{
    lemma_first_match_none(t.syms, sym, 0);
}

/// A successful match lies within the table and names the symbol.
pub proof fn lemma_first_match_bounds(syms: Seq<ExportEntrySpec>, sym: Seq<char>, from: int)
    requires
        0 <= from,
    ensures
        first_match(syms, sym, from) matches Some(i) ==> from <= i < syms.len() && syms[i].name
            == Some(sym),
    decreases syms.len() - from,
{
    if from < syms.len() && !(syms[from].name == Some(sym)) {
        lemma_first_match_bounds(syms, sym, from + 1);
        assert(first_match(syms, sym, from) == first_match(syms, sym, from + 1));
    }
    assert(first_match(syms, sym, from) matches Some(i) ==> from <= i < syms.len() && syms[i].name
        == Some(sym));
}

/// A located offset is never negative.
pub proof fn lemma_locate_ok_nonneg(t: ElfTableSpec, sym: Seq<char>)
    ensures
        spec_locate(t, sym) matches Ok(v) ==> v >= 0,
{
    lemma_first_match_bounds(t.syms, sym, 0);
    if first_match(t.syms, sym, 0) is Some {
        let i = first_match(t.syms, sym, 0).unwrap();
        if t.syms[i].section_index < t.sections.len() {
            let fo = t.sections[t.syms[i].section_index as int].file_offset;
            let es = t.sections[t.syms[i].section_index as int].entry_size;
            assert(i * es >= 0) by (nonlinear_arith)
                requires
                    i >= 0,
                    es >= 0,
            ;
            assert(fo + i * es >= 0);
        }
    }
    assert(spec_locate(t, sym) matches Ok(v) ==> v >= 0);
}

proof fn lemma_first_match_at(syms: Seq<ExportEntrySpec>, sym: Seq<char>, from: int, i: int)
    requires
        0 <= from <= i < syms.len(),
        syms[i].name == Some(sym),
        forall|j: int| from <= j < i ==> (#[trigger] syms[j].name) != Some(sym),
    ensures
        first_match(syms, sym, from) == Some(i),
    decreases i - from,
{
    if from < i {
        lemma_first_match_at(syms, sym, from + 1, i);
        assert(first_match(syms, sym, from) == Some(i));
    } else {
        assert(first_match(syms, sym, from) == Some(i));
    }
}

proof fn lemma_first_match_none(syms: Seq<ExportEntrySpec>, sym: Seq<char>, from: int)
    requires
        0 <= from,
        forall|j: int| from <= j < syms.len() ==> (#[trigger] syms[j].name) != Some(sym),
    ensures
        first_match(syms, sym, from) == None::<int>,
    decreases syms.len() - from,
{
    if from < syms.len() {
        lemma_first_match_none(syms, sym, from + 1);
    }
    assert(first_match(syms, sym, from) == None::<int>);
}

} // verus!

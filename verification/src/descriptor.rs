//! The descriptor reader: the fixed-layout metadata record is decoded at
//! a byte offset of the file image, little-endian with eight-byte
//! address fields, and each address-valued field except the function
//! table's is resolved to the null-terminated text it points at inside
//! the same image.

use vstd::prelude::*;

use crate::errors::VmodError;

verus! {

/// The little-endian unsigned value of four bytes.
pub open spec fn spec_le_u32(b: Seq<u8>, off: int) -> int {
    b[off] + 256 * b[off + 1] + 65536 * b[off + 2] + 16777216 * b[off + 3]
}

/// The little-endian unsigned value of eight bytes.
pub open spec fn spec_le_u64(b: Seq<u8>, off: int) -> int {
    spec_le_u32(b, off) + 4294967296 * spec_le_u32(b, off + 4)
}

/// The first null byte at or after a position.
pub open spec fn find_nul(b: Seq<u8>, i: int) -> Option<int>
    decreases b.len() - i,
{
    if i < 0 || i >= b.len() {
        None
    } else if b[i] == 0 {
        Some(i)
    } else {
        find_nul(b, i + 1)
    }
}

/// The null-terminated bytes at an offset: out of bounds where the offset
/// is at or past the end, unterminated where no null byte follows.
pub open spec fn spec_cstr_at(b: Seq<u8>, off: int) -> Result<Seq<u8>, VmodError> {
    if off >= b.len() {
        Err(VmodError::OutOfBounds)
    } else {
        match find_nul(b, off) {
            None => Err(VmodError::UnterminatedString),
            Some(j) => Ok(b.subrange(off, j)),
        }
    }
}

/// What `String::from_utf8_lossy` yields on these bytes: a function of
/// the bytes alone.
pub uninterp spec fn lossy_utf8(b: Seq<u8>) -> Seq<char>;

/// Relies on String::from_utf8_lossy: the decoded text is a function of
/// the bytes alone.
#[verifier::external_body]
fn lossy_string(b: &Vec<u8>) -> (r: String)
    ensures
        r@ == lossy_utf8(b@),
{
    String::from_utf8_lossy(b.as_slice()).into_owned()
}

/// Mathematical counterpart of `Descriptor`; the text fields carry the
/// decoded form of the exact bytes found at each stored offset.
pub struct DescriptorSpec {
    pub vrt_major: int,
    pub vrt_minor: int,
    pub file_id: Seq<char>,
    pub name: Seq<char>,
    pub func: int,
    pub func_len: int,
    pub proto: Seq<char>,
    pub json: Seq<char>,
    pub abi: Seq<char>,
}

/// The decoded metadata record: ABI version numbers, five resolved text
/// fields, the function table's raw offset (kept opaque, never
/// dereferenced) and the function table's length.
#[derive(Debug, PartialEq, Eq)]
pub struct Descriptor {
    pub vrt_major: usize,
    pub vrt_minor: usize,
    pub file_id: String,
    pub name: String,
    pub func: u64,
    pub func_len: usize,
    pub proto: String,
    pub json: String,
    pub abi: String,
}

/// The view of a decoded record.
pub open spec fn desc_view(d: &Descriptor) -> DescriptorSpec {
    DescriptorSpec {
        vrt_major: d.vrt_major as int,
        vrt_minor: d.vrt_minor as int,
        file_id: d.file_id@,
        name: d.name@,
        func: d.func as int,
        func_len: d.func_len as int,
        proto: d.proto@,
        json: d.json@,
        abi: d.abi@,
    }
}

/// The record at an offset: 64 bytes, little-endian — two 32-bit version
/// fields, then the file-id, name and function-table addresses, a 32-bit
/// table length (followed by four bytes of alignment padding), and the
/// prototype, schema-text and ABI-marker addresses. Each address but the
/// function table's is resolved as null-terminated text in the same
/// buffer.
pub open spec fn spec_decode(b: Seq<u8>, off: int) -> Result<DescriptorSpec, VmodError> {
    if off < 0 || off + 64 > b.len() {
        Err(VmodError::TruncatedData)
    } else {
        match spec_cstr_at(b, spec_le_u64(b, off + 8)) {
            Err(e) => Err(e),
            Ok(fid) => match spec_cstr_at(b, spec_le_u64(b, off + 16)) {
                Err(e) => Err(e),
                Ok(nm) => match spec_cstr_at(b, spec_le_u64(b, off + 40)) {
                    Err(e) => Err(e),
                    Ok(proto) => match spec_cstr_at(b, spec_le_u64(b, off + 48)) {
                        Err(e) => Err(e),
                        Ok(json) => match spec_cstr_at(b, spec_le_u64(b, off + 56)) {
                            Err(e) => Err(e),
                            Ok(abi) => Ok(
                                DescriptorSpec {
                                    vrt_major: spec_le_u32(b, off),
                                    vrt_minor: spec_le_u32(b, off + 4),
                                    file_id: lossy_utf8(fid),
                                    name: lossy_utf8(nm),
                                    func: spec_le_u64(b, off + 24),
                                    func_len: ((spec_le_u32(b, off + 32) as u32) as i32) as usize
                                        as int,
                                    proto: lossy_utf8(proto),
                                    json: lossy_utf8(json),
                                    abi: lossy_utf8(abi),
                                },
                            ),
                        },
                    },
                },
            },
        }
    }
}

/// Four little-endian bytes as one unsigned 32-bit value.
fn read_le_u32(b: &Vec<u8>, off: usize) -> (r: u32)
    requires
        off + 4 <= b@.len(),
    ensures
        r == spec_le_u32(b@, off as int),
{
    let n = b.len();
    let b0 = b[off] as u32;
    let b1 = b[off + 1] as u32;
    let b2 = b[off + 2] as u32;
    let b3 = b[off + 3] as u32;
    b0 + b1 * 256 + b2 * 65536 + b3 * 16777216
}

/// Eight little-endian bytes as one unsigned 64-bit value.
fn read_le_u64(b: &Vec<u8>, off: usize) -> (r: u64)
    requires
        off + 8 <= b@.len(),
    ensures
        r == spec_le_u64(b@, off as int),
{
    let n = b.len();
    let lo = read_le_u32(b, off) as u64;
    let hi = read_le_u32(b, off + 4) as u64;
    lo + hi * 4294967296
}

/// The null-terminated bytes at an offset, exactly as stored.
#[verifier::loop_isolation(false)]
pub fn read_cstr(b: &Vec<u8>, off: usize) -> (r: Result<Vec<u8>, VmodError>)
    ensures
        match r {
            Ok(v) => spec_cstr_at(b@, off as int) == Ok::<Seq<u8>, VmodError>(v@),
            Err(e) => spec_cstr_at(b@, off as int) == Err::<Seq<u8>, VmodError>(e),
        },
{
    let n = b.len();
    if off >= n {
        return Err(VmodError::OutOfBounds);
    }
    let mut j: usize = off;
    while j < n
        invariant
            off <= j <= n,
            find_nul(b@, off as int) == find_nul(b@, j as int),
        decreases n - j,
    {
        if b[j] == 0 {
            proof {
                assert(find_nul(b@, j as int) == Some(j as int));
            }
            let mut out: Vec<u8> = Vec::new();
            let mut k: usize = off;
            proof {
                assert(out@ =~= b@.subrange(off as int, off as int));
            }
            while k < j
                invariant
                    off <= k <= j <= n,
                    n == b@.len(),
                    out@ == b@.subrange(off as int, k as int),
                decreases j - k,
            {
                out.push(b[k]);
                proof {
                    assert(out@ =~= b@.subrange(off as int, k as int + 1));
                }
                k += 1;
            }
            proof {
                assert(spec_cstr_at(b@, off as int) == Ok::<Seq<u8>, VmodError>(out@));
            }
            return Ok(out);
        }
        proof {
            assert(find_nul(b@, j as int) == find_nul(b@, j as int + 1));
        }
        j += 1;
    }
    proof {
        assert(find_nul(b@, n as int) == None::<int>);
    }
    Err(VmodError::UnterminatedString)
}

/// The null-terminated text at a stored address-sized offset, decoded
/// from the exact bytes found there.
fn text_at(b: &Vec<u8>, off64: u64) -> (r: Result<String, VmodError>)
    ensures
        match r {
            Ok(s) => spec_cstr_at(b@, off64 as int) matches Ok(raw) && s@ == lossy_utf8(raw),
            Err(e) => spec_cstr_at(b@, off64 as int) == Err::<Seq<u8>, VmodError>(e),
        },
{
    if off64 >= b.len() as u64 {
        return Err(VmodError::OutOfBounds);
    }
    match read_cstr(b, off64 as usize) {
        Ok(raw) => Ok(lossy_string(&raw)),
        Err(e) => Err(e),
    }
}

/// Decode the fixed-layout record at an offset of the file image,
/// resolving each text field from the same image.
pub fn decode_descriptor(b: &Vec<u8>, off: usize) -> (r: Result<Descriptor, VmodError>)
    ensures
        match r {
            Ok(d) => spec_decode(b@, off as int) == Ok::<DescriptorSpec, VmodError>(desc_view(&d)),
            Err(e) => spec_decode(b@, off as int) == Err::<DescriptorSpec, VmodError>(e),
        },
{
    let n = b.len();
    if n < 64 || off > n - 64 {
        return Err(VmodError::TruncatedData);
    }
    let vrt_major = read_le_u32(b, off) as usize;
    let vrt_minor = read_le_u32(b, off + 4) as usize;
    let func = read_le_u64(b, off + 24);
    let func_len = (read_le_u32(b, off + 32) as i32) as usize;
    let file_id = match text_at(b, read_le_u64(b, off + 8)) {
        Ok(s) => s,
        Err(e) => {
            return Err(e);
        },
    };
    let name = match text_at(b, read_le_u64(b, off + 16)) {
        Ok(s) => s,
        Err(e) => {
            return Err(e);
        },
    };
    let proto = match text_at(b, read_le_u64(b, off + 40)) {
        Ok(s) => s,
        Err(e) => {
            return Err(e);
        },
    };
    let json = match text_at(b, read_le_u64(b, off + 48)) {
        Ok(s) => s,
        Err(e) => {
            return Err(e);
        },
    };
    let abi = match text_at(b, read_le_u64(b, off + 56)) {
        Ok(s) => s,
        Err(e) => {
            return Err(e);
        },
    };
    let d = Descriptor {
        vrt_major,
        vrt_minor,
        file_id,
        name,
        func,
        func_len,
        proto,
        json,
        abi,
    };
    proof {
        assert(spec_decode(b@, off as int) == Ok::<DescriptorSpec, VmodError>(desc_view(&d)));
    }
    Ok(d)
}

/// Valid null-terminated text is recovered exactly, byte for byte.
pub proof fn lemma_cstr_exact(b: Seq<u8>, off: int, j: int)
    requires
        0 <= off <= j < b.len(),
        b[j] == 0,
        forall|k: int| off <= k < j ==> b[k] != 0,
    ensures
        spec_cstr_at(b, off) == Ok::<Seq<u8>, VmodError>(b.subrange(off, j)),
{
    lemma_find_nul_found(b, off, j);
}

/// An offset at or past the buffer's end is out of bounds.
pub proof fn lemma_cstr_oob(b: Seq<u8>, off: int)
    requires
        off >= b.len(),
    ensures
        spec_cstr_at(b, off) == Err::<Seq<u8>, VmodError>(VmodError::OutOfBounds),
{
}

/// Text lacking a terminator within the buffer is unterminated.
pub proof fn lemma_cstr_unterminated(b: Seq<u8>, off: int)
    requires
        0 <= off < b.len(),
        forall|k: int| off <= k < b.len() ==> b[k] != 0,
    ensures
        spec_cstr_at(b, off) == Err::<Seq<u8>, VmodError>(VmodError::UnterminatedString),
{
    lemma_find_nul_none(b, off);
}

proof fn lemma_find_nul_found(b: Seq<u8>, i: int, j: int)
    requires
        0 <= i <= j < b.len(),
        b[j] == 0,
        forall|k: int| i <= k < j ==> b[k] != 0,
    ensures
        find_nul(b, i) == Some(j),
    decreases j - i,
{
    if i < j {
        lemma_find_nul_found(b, i + 1, j);
    }
    assert(find_nul(b, i) == Some(j));
}

proof fn lemma_find_nul_none(b: Seq<u8>, i: int)
    requires
        0 <= i,
        forall|k: int| i <= k < b.len() ==> b[k] != 0,
    ensures
        find_nul(b, i) == None::<int>,
    decreases b.len() - i,
{
    if i < b.len() {
        lemma_find_nul_none(b, i + 1);
    }
    assert(find_nul(b, i) == None::<int>);
}

} // verus!

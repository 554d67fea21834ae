//! The full extraction: locate the module's metadata record in a
//! shared-object image, decode the record, and parse its embedded schema
//! text into the module's namespace.

use vstd::prelude::*;

use crate::descriptor::{decode_descriptor, desc_view, spec_decode, DescriptorSpec};
use crate::elf::{elf_table_of, locate, spec_locate, spec_symbol_name};
use crate::errors::VmodError;
use crate::schema::{parse_vmod_json, spec_parse_vmod_json};
use crate::types::{wf_obj_tree, Obj, ObjSpec};

verus! {

/// Everything extracted from one module image: the decoded record's
/// fields and the parsed namespace. The function-table offset is kept as
/// the raw value found in the record and is never dereferenced.
#[derive(Debug, PartialEq, Eq)]
pub struct VmodData {
    pub vrt_major: usize,
    pub vrt_minor: usize,
    pub file_id: String,
    pub name: String,
    pub func: u64,
    pub func_len: usize,
    pub proto: String,
    pub json: String,
    pub abi: String,
    pub scope: Obj,
}

/// The whole extraction, mathematically: locate, decode, parse, each
/// stage's error terminal.
pub open spec fn spec_read_vmod(b: Seq<u8>, module: Seq<char>) -> Result<
    (DescriptorSpec, ObjSpec),
    VmodError,
> {
    match elf_table_of(b) {
        None => Err(VmodError::MalformedImage),
        Some(t) => match spec_locate(t, spec_symbol_name(module)) {
            Err(e) => Err(e),
            Ok(v) => if v > usize::MAX as int {
                Err(VmodError::OutOfBounds)
            } else {
                match spec_decode(b, v) {
                    Err(e) => Err(e),
                    Ok(ds) => match spec_parse_vmod_json(ds.json) {
                        Err(e) => Err(e),
                        Ok(scope) => Ok((ds, scope)),
                    },
                }
            },
        },
    }
}

/// The extracted record carries the decoded fields and the parsed scope.
pub open spec fn vmod_data_matches(v: VmodData, ds: DescriptorSpec, scope: ObjSpec) -> bool {
    &&& v.vrt_major as int == ds.vrt_major
    &&& v.vrt_minor as int == ds.vrt_minor
    &&& v.file_id@ == ds.file_id
    &&& v.name@ == ds.name
    &&& v.func as int == ds.func
    &&& v.func_len as int == ds.func_len
    &&& v.proto@ == ds.proto
    &&& v.json@ == ds.json
    &&& v.abi@ == ds.abi
    &&& v.scope@ == scope
}

/// Extract a module's interface from the raw image of its shared-object
/// file and its plain module name.
pub fn read_vmod_data(file: &Vec<u8>, vmod_name: &str) -> (r: Result<VmodData, VmodError>)
    ensures
        match r {
            Ok(v) => spec_read_vmod(file@, vmod_name@) matches Ok(p) && vmod_data_matches(
                v,
                p.0,
                p.1,
            ) && wf_obj_tree(v.scope),
            Err(e) => spec_read_vmod(file@, vmod_name@) == Err::<
                (DescriptorSpec, ObjSpec),
                VmodError,
            >(e),
        },
{
    let off = match locate(file, vmod_name) {
        Ok(o) => o,
        Err(e) => {
            proof {
                assert(spec_read_vmod(file@, vmod_name@) == Err::<
                    (DescriptorSpec, ObjSpec),
                    VmodError,
                >(e));
            }
            return Err(e);
        },
    };
    proof {
        if elf_table_of(file@) is Some {
            crate::elf::lemma_locate_ok_nonneg(
                elf_table_of(file@).unwrap(),
                spec_symbol_name(vmod_name@),
            );
        }
    }
    let d = match decode_descriptor(file, off) {
        Ok(d) => d,
        Err(e) => {
            proof {
                assert(spec_read_vmod(file@, vmod_name@) == Err::<
                    (DescriptorSpec, ObjSpec),
                    VmodError,
                >(e));
            }
            return Err(e);
        },
    };
    let scope = match parse_vmod_json(d.json.as_str()) {
        Ok(o) => o,
        Err(e) => {
            proof {
                assert(desc_view(&d).json == d.json@);
                assert(spec_read_vmod(file@, vmod_name@) == Err::<
                    (DescriptorSpec, ObjSpec),
                    VmodError,
                >(e));
            }
            return Err(e);
        },
    };
    let v = VmodData {
        vrt_major: d.vrt_major,
        vrt_minor: d.vrt_minor,
        file_id: d.file_id,
        name: d.name,
        func: d.func,
        func_len: d.func_len,
        proto: d.proto,
        json: d.json,
        abi: d.abi,
        scope,
    };
    proof {
        assert(spec_read_vmod(file@, vmod_name@) matches Ok(p) && vmod_data_matches(v, p.0, p.1));
    }
    Ok(v)
}

} // verus!

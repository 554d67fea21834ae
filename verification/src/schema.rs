//! The schema parser: the embedded JSON interface schema — an array of
//! tag-discriminated rows — becomes a tree of callable functions and
//! objects, rooted in one namespace object.

use vstd::prelude::*;
use vstd::string::StringExecFns;

use crate::errors::{SchemaField, VmodError};
use crate::json::{as_arr, as_text, json_of_text, lemma_json_view, lemma_vals_view_at,
    lemma_vals_view_len, parse_json_text, vals_view, JsonVal, JsonValue};
use crate::types::{compare_strings, wf_func_tree, wf_obj_tree, wf_tree, Func, FuncSpec, Obj,
    ObjSpec, Type, TypeSpec};

verus! {

/// The fixed primitive table: the resolved type a declared return-type
/// name maps to, or `None` for `VOID` and every unrecognized name.
pub open spec fn spec_prim_type(n: Seq<char>) -> Option<TypeSpec> {
    if n == "BACKEND"@ {
        Some(TypeSpec::Backend)
    } else if n == "STRING"@ {
        Some(TypeSpec::Str)
    } else if n == "REAL"@ {
        Some(TypeSpec::Number)
    } else if n == "INT"@ {
        Some(TypeSpec::Number)
    } else if n == "BOOL"@ {
        Some(TypeSpec::Bool)
    } else {
        None
    }
}

/// One declared parameter: a `[typeName, paramName, ...]` array.
pub open spec fn spec_param(v: JsonVal) -> Result<(Seq<char>, Seq<char>), VmodError> {
    match as_arr(v) {
        None => Err(VmodError::SchemaShapeError(SchemaField::ArgArr)),
        Some(a) => if a.len() < 1 {
            Err(VmodError::SchemaShapeError(SchemaField::ArgType))
        } else {
            match as_text(a[0]) {
                None => Err(VmodError::SchemaShapeError(SchemaField::ArgTypeText)),
                Some(ty) => if a.len() < 2 {
                    Err(VmodError::SchemaShapeError(SchemaField::ArgName))
                } else {
                    match as_text(a[1]) {
                        None => Err(VmodError::SchemaShapeError(SchemaField::ArgNameText)),
                        Some(nm) => Ok((ty, nm)),
                    }
                },
            }
        },
    }
}

/// The declared parameters of a signature, in order; the first ill-shaped
/// parameter's error aborts.
pub open spec fn spec_params(args: Seq<JsonVal>) -> Result<
    Seq<(Seq<char>, Seq<char>)>,
    VmodError,
>
    decreases args.len(),
{
    if args.len() == 0 {
        Ok(Seq::empty())
    } else {
        match spec_params(args.drop_last()) {
            Err(e) => Err(e),
            Ok(ps) => match spec_param(args.last()) {
                Err(e) => Err(e),
                Ok(p) => Ok(ps.push(p)),
            },
        }
    }
}

/// `"<typeName> <paramName>"` for each parameter, comma-separated.
pub open spec fn spec_join_params(ps: Seq<(Seq<char>, Seq<char>)>) -> Seq<char>
    decreases ps.len(),
{
    if ps.len() == 0 {
        Seq::empty()
    } else if ps.len() == 1 {
        ps[0].0 + " "@ + ps[0].1
    } else {
        spec_join_params(ps.drop_last()) + ", "@ + ps.last().0 + " "@ + ps.last().1
    }
}

/// The signature text: the joined parameters, parenthesized.
pub open spec fn spec_signature_text(ps: Seq<(Seq<char>, Seq<char>)>) -> Seq<char> {
    "("@ + spec_join_params(ps) + ")"@
}

/// The parameter elements of a signature array: all elements past its
/// three fixed leading elements, none when only those are present.
pub open spec fn sig_args(sig: Seq<JsonVal>) -> Seq<JsonVal> {
    if sig.len() <= 3 {
        Seq::empty()
    } else {
        sig.subrange(3, sig.len() as int)
    }
}

/// A function-tag row: element one is the name, element two the signature
/// array, whose element zero lists return-type candidates (the first is
/// authoritative), whose next two places are reserved but must be
/// present, and whose elements from index three on are parameters.
pub open spec fn spec_parse_func(row: Seq<JsonVal>) -> Result<FuncSpec, VmodError> {
    if row.len() < 2 {
        Err(VmodError::SchemaShapeError(SchemaField::FuncName))
    } else {
        match as_text(row[1]) {
            None => Err(VmodError::SchemaShapeError(SchemaField::FuncNameText)),
            Some(name) => if row.len() < 3 {
                Err(VmodError::SchemaShapeError(SchemaField::FuncSignature))
            } else {
                match as_arr(row[2]) {
                    None => Err(VmodError::SchemaShapeError(SchemaField::FuncSignatureArr)),
                    Some(sig) => if sig.len() < 1 {
                        Err(VmodError::SchemaShapeError(SchemaField::RetTypes))
                    } else {
                        match as_arr(sig[0]) {
                            None => Err(VmodError::SchemaShapeError(SchemaField::RetTypesArr)),
                            Some(rets) => if sig.len() < 3 {
                                Err(VmodError::SchemaShapeError(SchemaField::SignatureElements))
                            } else if rets.len() < 1 {
                                Err(VmodError::SchemaShapeError(SchemaField::RetTypeMissing))
                            } else {
                                match as_text(rets[0]) {
                                    None => Err(
                                        VmodError::SchemaShapeError(SchemaField::RetTypeText),
                                    ),
                                    Some(rt) => match spec_params(sig_args(sig)) {
                                        Err(e) => Err(e),
                                        Ok(ps) => Ok(
                                            FuncSpec {
                                                name,
                                                signature: Some(spec_signature_text(ps)),
                                                ret_type: Some(rt),
                                                ret: match spec_prim_type(rt) {
                                                    Some(t) => Some(Box::new(t)),
                                                    None => None,
                                                },
                                            },
                                        ),
                                    },
                                }
                            },
                        }
                    },
                }
            },
        }
    }
}

/// The method elements of an object row: all elements past its six
/// fixed leading elements, none when only those are present.
pub open spec fn obj_method_rows(row: Seq<JsonVal>) -> Seq<JsonVal> {
    if row.len() <= 6 {
        Seq::empty()
    } else {
        row.subrange(6, row.len() as int)
    }
}

/// The methods of an object row, as the mapping they denote; each method
/// element must be an array shaped like a function row.
pub open spec fn spec_methods(rows: Seq<JsonVal>) -> Result<Map<Seq<char>, TypeSpec>, VmodError>
    decreases rows.len(),
{
    if rows.len() == 0 {
        Ok(Map::empty())
    } else {
        match spec_methods(rows.drop_last()) {
            Err(e) => Err(e),
            Ok(m) => match as_arr(rows.last()) {
                None => Err(VmodError::SchemaShapeError(SchemaField::MethodArr)),
                Some(mr) => match spec_parse_func(mr) {
                    Err(e) => Err(e),
                    Ok(f) => Ok(m.insert(f.name, TypeSpec::Func(f))),
                },
            },
        }
    }
}

/// An object-tag row: element one is the object's name, its six fixed
/// leading elements must all be present, and elements from index six on
/// are its methods. The object becomes a constructor-like
/// callable: a synthetic function named like the object, without a
/// signature, whose resolved return type is the object itself.
pub open spec fn spec_parse_obj_row(row: Seq<JsonVal>) -> Result<FuncSpec, VmodError> {
    if row.len() < 2 {
        Err(VmodError::SchemaShapeError(SchemaField::ObjName))
    } else {
        match as_text(row[1]) {
            None => Err(VmodError::SchemaShapeError(SchemaField::ObjNameText)),
            Some(name) => if row.len() < 6 {
                Err(VmodError::SchemaShapeError(SchemaField::ObjElements))
            } else {
                match spec_methods(obj_method_rows(row)) {
                Err(e) => Err(e),
                Ok(props) => Ok(
                    FuncSpec {
                        name,
                        signature: None,
                        ret_type: Some(name),
                        ret: Some(
                            Box::new(
                                TypeSpec::Obj(
                                    ObjSpec { name, read_only: true, properties: props },
                                ),
                            ),
                        ),
                    },
                ),
                }
            },
        }
    }
}

/// One top-level row folded into the namespace mapping: function and
/// object rows insert a callable under its name (later rows overwrite
/// earlier ones), rows with any other text tag are skipped, a row whose
/// tag is not text is skipped, and an empty row aborts.
pub open spec fn spec_row_into(m: Map<Seq<char>, TypeSpec>, row: JsonVal) -> Result<
    Map<Seq<char>, TypeSpec>,
    VmodError,
> {
    match as_arr(row) {
        None => Err(VmodError::SchemaShapeError(SchemaField::Row)),
        Some(r) => if r.len() == 0 {
            Err(VmodError::SchemaShapeError(SchemaField::RowTag))
        } else {
            match as_text(r[0]) {
                None => Ok(m),
                Some(tag) => if tag == "$FUNC"@ {
                    match spec_parse_func(r) {
                        Err(e) => Err(e),
                        Ok(f) => Ok(m.insert(f.name, TypeSpec::Func(f))),
                    }
                } else if tag == "$OBJ"@ {
                    match spec_parse_obj_row(r) {
                        Err(e) => Err(e),
                        Ok(f) => Ok(m.insert(f.name, TypeSpec::Func(f))),
                    }
                } else {
                    Ok(m)
                },
            }
        },
    }
}

/// The namespace mapping that a row sequence denotes, rows processed in
/// order; the first failing row's error aborts the whole parse.
pub open spec fn spec_rows(rows: Seq<JsonVal>) -> Result<Map<Seq<char>, TypeSpec>, VmodError>
    decreases rows.len(),
{
    if rows.len() == 0 {
        Ok(Map::empty())
    } else {
        match spec_rows(rows.drop_last()) {
            Err(e) => Err(e),
            Ok(m) => spec_row_into(m, rows.last()),
        }
    }
}

/// A full schema parse: the text must be valid JSON, its top level an
/// array of rows; the result is the module namespace, an unnamed
/// read-only object.
pub open spec fn spec_parse_vmod_json(s: Seq<char>) -> Result<ObjSpec, VmodError> {
    match json_of_text(s) {
        None => Err(VmodError::SchemaSyntaxError),
        Some(doc) => match as_arr(doc) {
            None => Err(VmodError::SchemaShapeError(SchemaField::Toplevel)),
            Some(rows) => match spec_rows(rows) {
                Err(e) => Err(e),
                Ok(props) => Ok(ObjSpec { name: Seq::empty(), read_only: true, properties: props }),
            },
        },
    }
}

/// Appending a well-shaped element extends the parameter list by one.
proof fn lemma_spec_params_push(s: Seq<JsonVal>, x: JsonVal)
    ensures
        spec_params(s.push(x)) == match spec_params(s) {
            Err(e) => Err::<Seq<(Seq<char>, Seq<char>)>, VmodError>(e),
            Ok(ps) => match spec_param(x) {
                Err(e) => Err(e),
                Ok(p) => Ok(ps.push(p)),
            },
        },
{
    assert(s.push(x).drop_last() =~= s);
    assert(s.push(x).last() == x);
    assert(spec_params(s.push(x)) == match spec_params(s) {
        Err(e) => Err::<Seq<(Seq<char>, Seq<char>)>, VmodError>(e),
        Ok(ps) => match spec_param(x) {
            Err(e) => Err(e),
            Ok(p) => Ok(ps.push(p)),
        },
    });
}

/// An error among the parameters is the whole list's error, whatever
/// follows it.
proof fn lemma_spec_params_err(s: Seq<JsonVal>, k: int, e: VmodError)
    requires
        0 <= k < s.len(),
        spec_params(s.subrange(0, k)) is Ok,
        spec_param(s[k]) == Err::<(Seq<char>, Seq<char>), VmodError>(e),
    ensures
        spec_params(s) == Err::<Seq<(Seq<char>, Seq<char>)>, VmodError>(e),
    decreases s.len(),
{
    if k == s.len() - 1 {
        assert(s.drop_last() =~= s.subrange(0, k));
        assert(spec_params(s) == Err::<Seq<(Seq<char>, Seq<char>)>, VmodError>(e));
    } else {
        assert(s.drop_last().subrange(0, k) =~= s.subrange(0, k));
        assert(s.drop_last()[k] == s[k]);
        lemma_spec_params_err(s.drop_last(), k, e);
        assert(spec_params(s) == Err::<Seq<(Seq<char>, Seq<char>)>, VmodError>(e));
    }
}

/// Joining one more parameter appends a comma-separated piece.
proof fn lemma_spec_join_push(ps: Seq<(Seq<char>, Seq<char>)>, p: (Seq<char>, Seq<char>))
    ensures
        ps.len() == 0 ==> spec_join_params(ps.push(p)) == p.0 + " "@ + p.1,
        ps.len() > 0 ==> spec_join_params(ps.push(p)) == spec_join_params(ps) + ", "@ + p.0 + " "@
            + p.1,
{
    assert(ps.push(p).drop_last() =~= ps);
    assert(ps.push(p).last() == p);
    if ps.len() == 0 {
        assert(ps.push(p)[0] == p);
        assert(spec_join_params(ps.push(p)) == p.0 + " "@ + p.1);
    } else {
        assert(spec_join_params(ps.push(p)) == spec_join_params(ps) + ", "@ + p.0 + " "@ + p.1);
    }
}

/// Character-for-character equality of a string and a literal.
fn str_is(a: &String, lit: &str) -> (r: bool)
    ensures
        r == (a@ == lit@),
{
    let l = String::from_str(lit);
    compare_strings(a, &l)
}

/// The resolved type of a declared return-type name, through the fixed
/// primitive table; `None` for `VOID` and every other unrecognized name.
pub fn prim_type_of(name: &String) -> (r: Option<Type>)
    ensures
        match r {
            Some(t) => spec_prim_type(name@) == Some(t@) && wf_tree(t),
            None => spec_prim_type(name@) is None,
        },
{
    if str_is(name, "BACKEND") {
        let t = Type::Backend;
        proof {
            t.lemma_view();
        }
        Some(t)
    } else if str_is(name, "STRING") {
        let t = Type::Str;
        proof {
            t.lemma_view();
        }
        Some(t)
    } else if str_is(name, "REAL") {
        let t = Type::Number;
        proof {
            t.lemma_view();
        }
        Some(t)
    } else if str_is(name, "INT") {
        let t = Type::Number;
        proof {
            t.lemma_view();
        }
        Some(t)
    } else if str_is(name, "BOOL") {
        let t = Type::Bool;
        proof {
            t.lemma_view();
        }
        Some(t)
    } else {
        None
    }
}

/// One function-tag row (or one nested method row, which has the same
/// shape) parsed into a callable.
#[verifier::loop_isolation(false)]
pub fn parse_vmod_json_func(row: &Vec<JsonValue>) -> (r: Result<Func, VmodError>)
    ensures
        match r {
            Ok(f) => spec_parse_func(vals_view(row)) == Ok::<FuncSpec, VmodError>(f@)
                && wf_func_tree(f),
            Err(e) => spec_parse_func(vals_view(row)) == Err::<FuncSpec, VmodError>(e),
        },
{
    let n = row.len();
    proof {
        lemma_vals_view_len(row, n as int);
    }
    if n < 2 {
        return Err(VmodError::SchemaShapeError(SchemaField::FuncName));
    }
    proof {
        lemma_vals_view_at(row, n as int, 1);
        lemma_json_view(&row@[1]);
    }
    let name: String = match &row[1] {
        JsonValue::Text(s) => s.clone(),
        _ => {
            return Err(VmodError::SchemaShapeError(SchemaField::FuncNameText));
        },
    };
    assert(as_text(vals_view(row)[1]) == Some(name@));
    if n < 3 {
        return Err(VmodError::SchemaShapeError(SchemaField::FuncSignature));
    }
    proof {
        lemma_vals_view_at(row, n as int, 2);
        lemma_json_view(&row@[2]);
    }
    let sig: &Vec<JsonValue> = match &row[2] {
        JsonValue::Arr(a) => a,
        _ => {
            return Err(VmodError::SchemaShapeError(SchemaField::FuncSignatureArr));
        },
    };
    let ghost sigv = vals_view(sig);
    assert(as_arr(vals_view(row)[2]) == Some(sigv));
    let m = sig.len();
    proof {
        lemma_vals_view_len(sig, m as int);
    }
    if m < 1 {
        return Err(VmodError::SchemaShapeError(SchemaField::RetTypes));
    }
    proof {
        lemma_vals_view_at(sig, m as int, 0);
        lemma_json_view(&sig@[0]);
    }
    let rets: &Vec<JsonValue> = match &sig[0] {
        JsonValue::Arr(a) => a,
        _ => {
            return Err(VmodError::SchemaShapeError(SchemaField::RetTypesArr));
        },
    };
    let ghost retsv = vals_view(rets);
    assert(as_arr(sigv[0]) == Some(retsv));
    if m < 3 {
        return Err(VmodError::SchemaShapeError(SchemaField::SignatureElements));
    }
    proof {
        lemma_vals_view_len(rets, rets@.len() as int);
    }
    if rets.len() < 1 {
        return Err(VmodError::SchemaShapeError(SchemaField::RetTypeMissing));
    }
    proof {
        lemma_vals_view_at(rets, rets@.len() as int, 0);
        lemma_json_view(&rets@[0]);
    }
    let rt: String = match &rets[0] {
        JsonValue::Text(s) => s.clone(),
        _ => {
            return Err(VmodError::SchemaShapeError(SchemaField::RetTypeText));
        },
    };
    assert(as_text(retsv[0]) == Some(rt@));

    // gather the declared parameters, elements three onward
    let mut params: Vec<(String, String)> = Vec::new();
    let ghost mut ps: Seq<(Seq<char>, Seq<char>)> = Seq::empty();
    let mut k: usize = 3;
    proof {
        lemma_vals_view_fact(sig);
        assert(spec_params(Seq::empty()) == Ok::<Seq<(Seq<char>, Seq<char>)>, VmodError>(
            Seq::empty(),
        ));
        assert(sigv.subrange(3, 3) =~= Seq::<JsonVal>::empty());
        if m == 3 {
            assert(sig_args(sigv) =~= Seq::<JsonVal>::empty());
        }
    }
    while k < m
        invariant
            3 <= k,
            k <= m || k == 3,
            m == sig@.len(),
            sigv == vals_view(sig),
            vals_view_len_fact(sig, sigv),
            k <= m ==> spec_params(sigv.subrange(3, k as int)) == Ok::<
                Seq<(Seq<char>, Seq<char>)>,
                VmodError,
            >(ps),
            params@.len() == ps.len(),
            forall|j: int|
                0 <= j < ps.len() ==> (#[trigger] params@[j].0@, params@[j].1@) == ps[j],
        decreases m - k,
    {
        proof {
            lemma_vals_view_at(sig, m as int, k as int);
            lemma_json_view(&sig@[k as int]);
        }
        let ghost pre_ps = ps;
        let arg: &Vec<JsonValue> = match &sig[k] {
            JsonValue::Arr(a) => a,
            _ => {
                proof {
                    step_err_params(sigv, k as int, VmodError::SchemaShapeError(SchemaField::ArgArr), pre_ps);
                }
                return Err(VmodError::SchemaShapeError(SchemaField::ArgArr));
            },
        };
        let ghost argv = vals_view(arg);
        proof {
            lemma_vals_view_len(arg, arg@.len() as int);
        }
        if arg.len() < 1 {
            proof {
                step_err_params(sigv, k as int, VmodError::SchemaShapeError(SchemaField::ArgType), pre_ps);
            }
            return Err(VmodError::SchemaShapeError(SchemaField::ArgType));
        }
        proof {
            lemma_vals_view_at(arg, arg@.len() as int, 0);
            lemma_json_view(&arg@[0]);
        }
        let ty: String = match &arg[0] {
            JsonValue::Text(s) => s.clone(),
            _ => {
                proof {
                    step_err_params(sigv, k as int, VmodError::SchemaShapeError(SchemaField::ArgTypeText), pre_ps);
                }
                return Err(VmodError::SchemaShapeError(SchemaField::ArgTypeText));
            },
        };
        if arg.len() < 2 {
            proof {
                step_err_params(sigv, k as int, VmodError::SchemaShapeError(SchemaField::ArgName), pre_ps);
            }
            return Err(VmodError::SchemaShapeError(SchemaField::ArgName));
        }
        proof {
            lemma_vals_view_at(arg, arg@.len() as int, 1);
            lemma_json_view(&arg@[1]);
        }
        let nm: String = match &arg[1] {
            JsonValue::Text(s) => s.clone(),
            _ => {
                proof {
                    step_err_params(sigv, k as int, VmodError::SchemaShapeError(SchemaField::ArgNameText), pre_ps);
                }
                return Err(VmodError::SchemaShapeError(SchemaField::ArgNameText));
            },
        };
        proof {
            assert(spec_param(sigv[k as int]) == Ok::<(Seq<char>, Seq<char>), VmodError>((
                ty@,
                nm@,
            )));
            lemma_spec_params_push(sigv.subrange(3, k as int), sigv[k as int]);
            assert(sigv.subrange(3, k as int).push(sigv[k as int]) =~= sigv.subrange(
                3,
                k as int + 1,
            ));
        }
        params.push((ty, nm));
        proof {
            ps = pre_ps.push((params@.last().0@, params@.last().1@));
        }
        k += 1;
    }
    proof {
        if m > 3 {
            assert(sig_args(sigv) == sigv.subrange(3, m as int));
        } else {
            assert(sig_args(sigv) =~= Seq::<JsonVal>::empty());
        }
        assert(spec_params(sig_args(sigv)) == Ok::<Seq<(Seq<char>, Seq<char>)>, VmodError>(ps));
    }

    // build the signature text
    let mut text = String::from_str("(");
    let mut j: usize = 0;
    proof {
        assert(ps.subrange(0, 0) =~= Seq::<(Seq<char>, Seq<char>)>::empty());
        assert(text@ =~= "("@ + spec_join_params(ps.subrange(0, 0)));
    }
    while j < params.len()
        invariant
            j <= params@.len(),
            params@.len() == ps.len(),
            forall|i: int|
                0 <= i < ps.len() ==> (#[trigger] params@[i].0@, params@[i].1@) == ps[i],
            text@ == "("@ + spec_join_params(ps.subrange(0, j as int)),
        decreases params@.len() - j,
    {
        if j > 0 {
            text.append(", ");
        }
        text.append(params[j].0.as_str());
        text.append(" ");
        text.append(params[j].1.as_str());
        proof {
            lemma_spec_join_push(ps.subrange(0, j as int), ps[j as int]);
            assert(ps.subrange(0, j as int).push(ps[j as int]) =~= ps.subrange(0, j as int + 1));
            assert(text@ == "("@ + spec_join_params(ps.subrange(0, j as int + 1)));
        }
        j += 1;
    }
    text.append(")");
    proof {
        assert(ps.subrange(0, ps.len() as int) =~= ps);
        assert(text@ == spec_signature_text(ps));
    }

    let ret: Option<Box<Type>> = match prim_type_of(&rt) {
        Some(t) => Some(Box::new(t)),
        None => None,
    };
    let f = Func { name, signature: Some(text), ret_type: Some(rt), ret };
    proof {
        f.lemma_view();
        assert(f@.name == name@);
        assert(spec_parse_func(vals_view(row)) == Ok::<FuncSpec, VmodError>(f@));
        assert(wf_func_tree(f));
    }
    Ok(f)
}


/// Appending one method element extends the method mapping by one step.
proof fn lemma_spec_methods_push(s: Seq<JsonVal>, x: JsonVal)
    ensures
        spec_methods(s.push(x)) == match spec_methods(s) {
            Err(e) => Err::<Map<Seq<char>, TypeSpec>, VmodError>(e),
            Ok(m) => match as_arr(x) {
                None => Err(VmodError::SchemaShapeError(SchemaField::MethodArr)),
                Some(mr) => match spec_parse_func(mr) {
                    Err(e) => Err(e),
                    Ok(f) => Ok(m.insert(f.name, TypeSpec::Func(f))),
                },
            },
        },
{
    assert(s.push(x).drop_last() =~= s);
    assert(s.push(x).last() == x);
    assert(spec_methods(s.push(x)) == match spec_methods(s) {
        Err(e) => Err::<Map<Seq<char>, TypeSpec>, VmodError>(e),
        Ok(m) => match as_arr(x) {
            None => Err(VmodError::SchemaShapeError(SchemaField::MethodArr)),
            Some(mr) => match spec_parse_func(mr) {
                Err(e) => Err(e),
                Ok(f) => Ok(m.insert(f.name, TypeSpec::Func(f))),
            },
        },
    });
}

/// An error at one method place aborts the whole method mapping.
proof fn lemma_spec_methods_err(s: Seq<JsonVal>, k: int, e: VmodError)
    requires
        0 <= k < s.len(),
        spec_methods(s.subrange(0, k)) is Ok,
        match as_arr(s[k]) {
            None => e == VmodError::SchemaShapeError(SchemaField::MethodArr),
            Some(mr) => spec_parse_func(mr) == Err::<FuncSpec, VmodError>(e),
        },
    ensures
        spec_methods(s) == Err::<Map<Seq<char>, TypeSpec>, VmodError>(e),
    decreases s.len(),
{
    if k == s.len() - 1 {
        assert(s.drop_last() =~= s.subrange(0, k));
        assert(spec_methods(s) == Err::<Map<Seq<char>, TypeSpec>, VmodError>(e));
    } else {
        assert(s.drop_last().subrange(0, k) =~= s.subrange(0, k));
        assert(s.drop_last()[k] == s[k]);
        lemma_spec_methods_err(s.drop_last(), k, e);
        assert(spec_methods(s) == Err::<Map<Seq<char>, TypeSpec>, VmodError>(e));
    }
}

/// An object-tag row parsed into its constructor-like callable.
#[verifier::loop_isolation(false)]
pub fn parse_vmod_json_obj(row: &Vec<JsonValue>) -> (r: Result<Func, VmodError>)
    ensures
        match r {
            Ok(f) => spec_parse_obj_row(vals_view(row)) == Ok::<FuncSpec, VmodError>(f@)
                && wf_func_tree(f),
            Err(e) => spec_parse_obj_row(vals_view(row)) == Err::<FuncSpec, VmodError>(e),
        },
{
    let n = row.len();
    proof {
        lemma_vals_view_fact(row);
    }
    if n < 2 {
        return Err(VmodError::SchemaShapeError(SchemaField::ObjName));
    }
    proof {
        lemma_json_view(&row@[1]);
    }
    let name: String = match &row[1] {
        JsonValue::Text(s) => s.clone(),
        _ => {
            return Err(VmodError::SchemaShapeError(SchemaField::ObjNameText));
        },
    };
    assert(as_text(vals_view(row)[1]) == Some(name@));
    if n < 6 {
        return Err(VmodError::SchemaShapeError(SchemaField::ObjElements));
    }
    let ghost rowv = vals_view(row);
    let ghost mrows = obj_method_rows(rowv);
    let mut obj = Obj::new_namespace(name.clone());
    let mut k: usize = 6;
    proof {
        assert(rowv.subrange(6, 6) =~= Seq::<JsonVal>::empty());
        if n == 6 {
            assert(mrows =~= Seq::<JsonVal>::empty());
        }
        assert(spec_methods(Seq::empty()) == Ok::<Map<Seq<char>, TypeSpec>, VmodError>(
            Map::empty(),
        ));
    }
    while k < n
        invariant
            6 <= k,
            k <= n || k == 6,
            obj.wf_props(),
            obj.read_only == true,
            obj@.name == name@,
            obj@.read_only == true,
            forall|a: int| 0 <= a < obj.properties@.len() ==> wf_tree(#[trigger] obj.properties@[a].1),
            k <= n ==> spec_methods(rowv.subrange(6, k as int)) == Ok::<
                Map<Seq<char>, TypeSpec>,
                VmodError,
            >(obj@.properties),
        decreases n - k,
    {
        proof {
            lemma_json_view(&row@[k as int]);
        }
        let ghost pre_props = obj@.properties;
        let mrow: &Vec<JsonValue> = match &row[k] {
            JsonValue::Arr(a) => a,
            _ => {
                proof {
                    assert(mrows.subrange(0, k - 6) =~= rowv.subrange(6, k as int));
                    assert(mrows[k - 6] == rowv[k as int]);
                    lemma_spec_methods_err(
                        mrows,
                        k - 6,
                        VmodError::SchemaShapeError(SchemaField::MethodArr),
                    );
                }
                return Err(VmodError::SchemaShapeError(SchemaField::MethodArr));
            },
        };
        match parse_vmod_json_func(mrow) {
            Err(e) => {
                proof {
                    assert(mrows.subrange(0, k - 6) =~= rowv.subrange(6, k as int));
                    assert(mrows[k - 6] == rowv[k as int]);
                    assert(as_arr(rowv[k as int]) == Some(vals_view(mrow)));
                    lemma_spec_methods_err(mrows, k - 6, e);
                }
                return Err(e);
            },
            Ok(f) => {
                let fname = f.name.clone();
                proof {
                    f.lemma_view();
                }
                let t = Type::Func(f);
                proof {
                    t.lemma_view();
                    assert(wf_tree(t));
                }
                obj.insert_prop(fname, t);
                proof {
                    lemma_spec_methods_push(rowv.subrange(6, k as int), rowv[k as int]);
                    assert(rowv.subrange(6, k as int).push(rowv[k as int]) =~= rowv.subrange(
                        6,
                        k as int + 1,
                    ));
                    assert(as_arr(rowv[k as int]) == Some(vals_view(mrow)));
                    assert(spec_methods(rowv.subrange(6, k as int + 1)) == Ok::<
                        Map<Seq<char>, TypeSpec>,
                        VmodError,
                    >(obj@.properties));
                }
            },
        }
        k += 1;
    }
    proof {
        if n > 6 {
            assert(mrows == rowv.subrange(6, n as int));
        }
        assert(spec_methods(mrows) == Ok::<Map<Seq<char>, TypeSpec>, VmodError>(obj@.properties));
    }
    proof {
        assert(wf_obj_tree(obj));
    }
    let ghost props = obj@.properties;
    let inner = Type::Obj(obj);
    proof {
        inner.lemma_view();
        assert(wf_tree(inner));
    }
    let f = Func {
        name: name.clone(),
        signature: None,
        ret_type: Some(name),
        ret: Some(Box::new(inner)),
    };
    proof {
        f.lemma_view();
        assert(f@.ret == Some(
            Box::new(TypeSpec::Obj(ObjSpec { name: name@, read_only: true, properties: props })),
        ));
        assert(spec_parse_obj_row(vals_view(row)) == Ok::<FuncSpec, VmodError>(f@));
        assert(wf_func_tree(f));
    }
    Ok(f)
}

/// Appending one row folds it into the namespace mapping.
proof fn lemma_spec_rows_push(s: Seq<JsonVal>, x: JsonVal)
    ensures
        spec_rows(s.push(x)) == match spec_rows(s) {
            Err(e) => Err::<Map<Seq<char>, TypeSpec>, VmodError>(e),
            Ok(m) => spec_row_into(m, x),
        },
{
    assert(s.push(x).drop_last() =~= s);
    assert(s.push(x).last() == x);
    assert(spec_rows(s.push(x)) == match spec_rows(s) {
        Err(e) => Err::<Map<Seq<char>, TypeSpec>, VmodError>(e),
        Ok(m) => spec_row_into(m, x),
    });
}

/// An error at one row aborts the whole parse.
proof fn lemma_spec_rows_err(s: Seq<JsonVal>, k: int, m: Map<Seq<char>, TypeSpec>, e: VmodError)
    requires
        0 <= k < s.len(),
        spec_rows(s.subrange(0, k)) == Ok::<Map<Seq<char>, TypeSpec>, VmodError>(m),
        spec_row_into(m, s[k]) == Err::<Map<Seq<char>, TypeSpec>, VmodError>(e),
    ensures
        spec_rows(s) == Err::<Map<Seq<char>, TypeSpec>, VmodError>(e),
    decreases s.len(),
{
    if k == s.len() - 1 {
        assert(s.drop_last() =~= s.subrange(0, k));
        assert(spec_rows(s) == Err::<Map<Seq<char>, TypeSpec>, VmodError>(e));
    } else {
        assert(s.drop_last().subrange(0, k) =~= s.subrange(0, k));
        assert(s.drop_last()[k] == s[k]);
        lemma_spec_rows_err(s.drop_last(), k, m, e);
        assert(spec_rows(s) == Err::<Map<Seq<char>, TypeSpec>, VmodError>(e));
    }
}

/// A full schema parse: the text as JSON, its rows folded in order into
/// the module namespace.
#[verifier::loop_isolation(false)]
pub fn parse_vmod_json(json: &str) -> (r: Result<Obj, VmodError>)
    ensures
        match r {
            Ok(o) => spec_parse_vmod_json(json@) == Ok::<ObjSpec, VmodError>(o@)
                && wf_obj_tree(o),
            Err(e) => spec_parse_vmod_json(json@) == Err::<ObjSpec, VmodError>(e),
        },
{
    let doc: JsonValue = match parse_json_text(json) {
        Some(v) => v,
        None => {
            return Err(VmodError::SchemaSyntaxError);
        },
    };
    let ghost gdoc = doc@;
    proof {
        lemma_json_view(&doc);
    }
    let rows: Vec<JsonValue> = match doc {
        JsonValue::Arr(a) => a,
        _ => {
            return Err(VmodError::SchemaShapeError(SchemaField::Toplevel));
        },
    };
    let ghost rowsv = vals_view(&rows);
    proof {
        lemma_vals_view_fact(&rows);
        assert(as_arr(gdoc) == Some(rowsv));
    }
    let mut ns = Obj::new_namespace(String::new());
    let mut i: usize = 0;
    proof {
        assert(rowsv.subrange(0, 0) =~= Seq::<JsonVal>::empty());
        assert(spec_rows(Seq::empty()) == Ok::<Map<Seq<char>, TypeSpec>, VmodError>(Map::empty()));
    }
    while i < rows.len()
        invariant
            i <= rows@.len(),
            ns.wf_props(),
            ns.read_only == true,
            ns@.name == Seq::<char>::empty(),
            ns@.read_only == true,
            forall|a: int| 0 <= a < ns.properties@.len() ==> wf_tree(#[trigger] ns.properties@[a].1),
            spec_rows(rowsv.subrange(0, i as int)) == Ok::<Map<Seq<char>, TypeSpec>, VmodError>(
                ns@.properties,
            ),
        decreases rows@.len() - i,
    {
        let ghost pre_props = ns@.properties;
        proof {
            lemma_json_view(&rows@[i as int]);
        }
        match &rows[i] {
            JsonValue::Arr(ra) => {
                proof {
                    lemma_vals_view_fact(ra);
                    assert(as_arr(rowsv[i as int]) == Some(vals_view(ra)));
                }
                if ra.len() == 0 {
                    proof {
                        lemma_spec_rows_err(
                            rowsv,
                            i as int,
                            pre_props,
                            VmodError::SchemaShapeError(SchemaField::RowTag),
                        );
                    }
                    return Err(VmodError::SchemaShapeError(SchemaField::RowTag));
                }
                proof {
                    lemma_json_view(&ra@[0]);
                }
                match &ra[0] {
                    JsonValue::Text(tag) => {
                        if str_is(tag, "$FUNC") {
                            match parse_vmod_json_func(ra) {
                                Err(e) => {
                                    proof {
                                        lemma_spec_rows_err(rowsv, i as int, pre_props, e);
                                    }
                                    return Err(e);
                                },
                                Ok(f) => {
                                    let fname = f.name.clone();
                                    proof {
                                        f.lemma_view();
                                    }
                                    let t = Type::Func(f);
                                    proof {
                                        t.lemma_view();
                                        assert(wf_tree(t));
                                    }
                                    ns.insert_prop(fname, t);
                                },
                            }
                        } else if str_is(tag, "$OBJ") {
                            match parse_vmod_json_obj(ra) {
                                Err(e) => {
                                    proof {
                                        lemma_spec_rows_err(rowsv, i as int, pre_props, e);
                                    }
                                    return Err(e);
                                },
                                Ok(f) => {
                                    let fname = f.name.clone();
                                    proof {
                                        f.lemma_view();
                                    }
                                    let t = Type::Func(f);
                                    proof {
                                        t.lemma_view();
                                        assert(wf_tree(t));
                                    }
                                    ns.insert_prop(fname, t);
                                },
                            }
                        }
                    },
                    _ => {},
                }
            },
            _ => {
                proof {
                    lemma_spec_rows_err(
                        rowsv,
                        i as int,
                        pre_props,
                        VmodError::SchemaShapeError(SchemaField::Row),
                    );
                }
                return Err(VmodError::SchemaShapeError(SchemaField::Row));
            },
        }
        proof {
            lemma_spec_rows_push(rowsv.subrange(0, i as int), rowsv[i as int]);
            assert(rowsv.subrange(0, i as int).push(rowsv[i as int]) =~= rowsv.subrange(
                0,
                i as int + 1,
            ));
            assert(spec_row_into(pre_props, rowsv[i as int]) == Ok::<
                Map<Seq<char>, TypeSpec>,
                VmodError,
            >(ns@.properties));
            assert(spec_rows(rowsv.subrange(0, i as int + 1)) == Ok::<
                Map<Seq<char>, TypeSpec>,
                VmodError,
            >(ns@.properties));
        }
        i += 1;
    }
    proof {
        assert(rowsv.subrange(0, rows@.len() as int) =~= rowsv);
        assert(spec_rows(rowsv) == Ok::<Map<Seq<char>, TypeSpec>, VmodError>(ns@.properties));
        assert(ns@ == ObjSpec {
            name: Seq::<char>::empty(),
            read_only: true,
            properties: ns@.properties,
        });
        assert(spec_parse_vmod_json(json@) == Ok::<ObjSpec, VmodError>(ns@));
        assert(wf_obj_tree(ns));
    }
    Ok(ns)
}

/// The primitive mapping is total and exact: `REAL` and `INT` resolve to
/// `Number`, `STRING` to `Str`, `BOOL` to `Bool`, `BACKEND` to `Backend`,
/// and `VOID`, like every unrecognized name, resolves to nothing.
pub proof fn lemma_prim_mapping()
    ensures
        spec_prim_type("REAL"@) == Some(TypeSpec::Number),
        spec_prim_type("INT"@) == Some(TypeSpec::Number),
        spec_prim_type("STRING"@) == Some(TypeSpec::Str),
        spec_prim_type("BOOL"@) == Some(TypeSpec::Bool),
        spec_prim_type("BACKEND"@) == Some(TypeSpec::Backend),
        spec_prim_type("VOID"@) is None,
        forall|n: Seq<char>|
            n != "BACKEND"@ && n != "STRING"@ && n != "REAL"@ && n != "INT"@ && n != "BOOL"@
                ==> (#[trigger] spec_prim_type(n)) is None,
{
    reveal_strlit("REAL");
    reveal_strlit("INT");
    reveal_strlit("STRING");
    reveal_strlit("BOOL");
    reveal_strlit("BACKEND");
    reveal_strlit("VOID");
    assert("BACKEND"@.len() == 7 && "STRING"@.len() == 6 && "REAL"@.len() == 4 && "INT"@.len() == 3
        && "BOOL"@.len() == 4 && "VOID"@.len() == 4);
    assert("REAL"@ != "BACKEND"@ && "REAL"@ != "STRING"@);
    assert("INT"@ != "BACKEND"@ && "INT"@ != "STRING"@ && "INT"@ != "REAL"@);
    assert("BOOL"@ != "BACKEND"@ && "BOOL"@ != "STRING"@ && "BOOL"@ != "REAL"@ && "BOOL"@
        != "INT"@) by {
        assert("BOOL"@[0] == 'B' && "REAL"@[0] == 'R' && "BOOL"@[1] == 'O' && "BACKEND"@[1] == 'A');
    }
    assert("VOID"@ != "BACKEND"@ && "VOID"@ != "STRING"@ && "VOID"@ != "REAL"@ && "VOID"@ != "INT"@
        && "VOID"@ != "BOOL"@) by {
        assert("VOID"@[0] == 'V' && "REAL"@[0] == 'R' && "BOOL"@[0] == 'B');
    }
    assert(spec_prim_type("REAL"@) == Some(TypeSpec::Number));
    assert(spec_prim_type("INT"@) == Some(TypeSpec::Number));
    assert(spec_prim_type("STRING"@) == Some(TypeSpec::Str));
    assert(spec_prim_type("BOOL"@) == Some(TypeSpec::Bool));
    assert(spec_prim_type("BACKEND"@) == Some(TypeSpec::Backend));
    assert("VOID"@.len() == 4 && "BOOL"@.len() == 4 && "VOID"@[0] != "BOOL"@[0]);
    assert(spec_prim_type("VOID"@) is None);
}

/// Parsing the same schema text twice yields structurally equal trees:
/// the parse result is a function of the text alone, and each call owns
/// its result outright.
pub proof fn lemma_parse_deterministic(s1: Seq<char>, s2: Seq<char>)
    requires
        s1 == s2,
    ensures
        spec_parse_vmod_json(s1) == spec_parse_vmod_json(s2),
{
}

/// Of two top-level rows declaring the same name, the later one's
/// callable stands in the namespace, and rows leave every other name
/// untouched: the final property count reflects distinct names only.
pub proof fn lemma_later_row_wins(rows: Seq<JsonVal>, m: Map<Seq<char>, TypeSpec>, f: FuncSpec)
    requires
        rows.len() > 0,
        spec_rows(rows.drop_last()) == Ok::<Map<Seq<char>, TypeSpec>, VmodError>(m),
        as_arr(rows.last()) matches Some(r) && r.len() > 0 && as_text(r[0]) == Some("$FUNC"@)
            && spec_parse_func(r) == Ok::<FuncSpec, VmodError>(f),
    ensures
        spec_rows(rows) == Ok::<Map<Seq<char>, TypeSpec>, VmodError>(
            m.insert(f.name, TypeSpec::Func(f)),
        ),
        spec_rows(rows)->Ok_0[f.name] == TypeSpec::Func(f),
        forall|k: Seq<char>|
            k != f.name && m.dom().contains(k) ==> spec_rows(rows)->Ok_0[k] == m[k],
{
    assert(spec_rows(rows) == spec_row_into(m, rows.last()));
    assert(spec_row_into(m, rows.last()) == Ok::<Map<Seq<char>, TypeSpec>, VmodError>(
        m.insert(f.name, TypeSpec::Func(f)),
    ));
}

/// The loop facts about a viewed array, packaged for invariants: the view
/// has the array's length and holds each element's view.
pub open spec fn vals_view_len_fact(a: &Vec<JsonValue>, v: Seq<JsonVal>) -> bool {
    v.len() == a@.len() && forall|i: int| 0 <= i < a@.len() ==> v[i] == #[trigger] a@[i]@
}

/// The packaged facts hold of every viewed array.
pub proof fn lemma_vals_view_fact(a: &Vec<JsonValue>)
    ensures
        vals_view_len_fact(a, vals_view(a)),
{
    lemma_vals_view_len(a, a@.len() as int);
    assert forall|i: int| 0 <= i < a@.len() implies vals_view(a)[i] == #[trigger] a@[i]@ by {
        lemma_vals_view_at(a, a@.len() as int, i);
    }
}

/// An error at one parameter place aborts the whole parameter list.
proof fn step_err_params(sigv: Seq<JsonVal>, k: int, e: VmodError, ps: Seq<(Seq<char>, Seq<char>)>)
    requires
        3 <= k < sigv.len(),
        spec_params(sigv.subrange(3, k)) == Ok::<Seq<(Seq<char>, Seq<char>)>, VmodError>(ps),
        spec_param(sigv[k]) == Err::<(Seq<char>, Seq<char>), VmodError>(e),
    ensures
        spec_params(sig_args(sigv)) == Err::<Seq<(Seq<char>, Seq<char>)>, VmodError>(e),
{
    let args = sig_args(sigv);
    assert(args == sigv.subrange(3, sigv.len() as int));
    assert(args.subrange(0, k - 3) =~= sigv.subrange(3, k));
    assert(args[k - 3] == sigv[k]);
    lemma_spec_params_err(args, k - 3, e);
}

} // verus!

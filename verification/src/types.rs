//! The output data model: a closed tagged union of exported types, with
//! recursive function and object kinds, plus the plain record types that
//! a full extraction fills in.

use vstd::prelude::*;

verus! {

/// Mathematical counterpart of `Func`.
pub struct FuncSpec {
    pub name: Seq<char>,
    pub signature: Option<Seq<char>>,
    pub ret_type: Option<Seq<char>>,
    pub ret: Option<Box<TypeSpec>>,
}

/// Mathematical counterpart of `Obj`: the properties are a mapping, so a
/// name holds one type at any instant.
pub struct ObjSpec {
    pub name: Seq<char>,
    pub read_only: bool,
    pub properties: Map<Seq<char>, TypeSpec>,
}

/// Mathematical counterpart of `Type`.
pub enum TypeSpec {
    Backend,
    Str,
    Number,
    Bool,
    Func(FuncSpec),
    Obj(ObjSpec),
}

/// One exported callable: its name, an optional human-readable parameter
/// list, the optional raw declared return-type name, and the optional
/// resolved return type. A `Func` with no resolved return type is a
/// void-returning callable.
#[derive(Debug, PartialEq, Eq)]
pub struct Func {
    pub name: String,
    pub signature: Option<String>,
    pub ret_type: Option<String>,
    pub ret: Option<Box<Type>>,
}

/// One exported object: a namespace of named types. Module-derived
/// objects are always read-only, since the schema declares no mutability.
/// The property list never holds a name twice.
#[derive(Debug, PartialEq, Eq)]
pub struct Obj {
    pub name: String,
    pub read_only: bool,
    pub properties: Vec<(String, Type)>,
}

/// One exported type: a closed tagged union, recursive through `Func`
/// and `Obj`, and a finite tree by construction.
#[derive(Debug, PartialEq, Eq)]
pub enum Type {
    Backend,
    Str,
    Number,
    Bool,
    Func(Func),
    Obj(Obj),
}

/// The mapping that an object's first `n` property entries denote:
/// later entries overwrite earlier ones under the same key.
pub open spec fn obj_props_to(o: &Obj, n: int) -> Map<Seq<char>, TypeSpec>
    decreases o, n,
{
    if n <= 0 || o.properties@.len() < n {
        Map::empty()
    } else {
        obj_props_to(o, n - 1).insert(o.properties@[n - 1].0@, o.properties@[n - 1].1@)
    }
}

impl View for Type {
    type V = TypeSpec;

    closed spec fn view(&self) -> TypeSpec
        decreases self, 1int,
    {
        match self {
            Type::Backend => TypeSpec::Backend,
            Type::Str => TypeSpec::Str,
            Type::Number => TypeSpec::Number,
            Type::Bool => TypeSpec::Bool,
            Type::Func(f) => TypeSpec::Func(f.view()),
            Type::Obj(o) => TypeSpec::Obj(o.view()),
        }
    }
}

impl View for Func {
    type V = FuncSpec;

    closed spec fn view(&self) -> FuncSpec
        decreases self, 1int,
    {
        FuncSpec {
            name: self.name@,
            signature: match self.signature {
                Some(s) => Some(s@),
                None => None,
            },
            ret_type: match self.ret_type {
                Some(s) => Some(s@),
                None => None,
            },
            ret: match self.ret {
                Some(b) => Some(Box::new((*b).view())),
                None => None,
            },
        }
    }
}

impl View for Obj {
    type V = ObjSpec;

    closed spec fn view(&self) -> ObjSpec
        decreases self, self.properties@.len() + 2 as int,
    {
        ObjSpec {
            name: self.name@,
            read_only: self.read_only,
            properties: obj_props_to(self, self.properties@.len() as int),
        }
    }
}

impl Type {
    /// The view of each `Type` variant, made explicit for callers.
    pub proof fn lemma_view(&self)
        ensures
            *self matches Type::Backend ==> self@ == TypeSpec::Backend,
            *self matches Type::Str ==> self@ == TypeSpec::Str,
            *self matches Type::Number ==> self@ == TypeSpec::Number,
            *self matches Type::Bool ==> self@ == TypeSpec::Bool,
            forall|f: Func| *self == Type::Func(f) ==> self@ == TypeSpec::Func(f@),
            forall|o: Obj| *self == Type::Obj(o) ==> self@ == TypeSpec::Obj(o@),
    {
        assert(*self matches Type::Backend ==> self@ == TypeSpec::Backend);
        assert(*self matches Type::Str ==> self@ == TypeSpec::Str);
        assert(*self matches Type::Number ==> self@ == TypeSpec::Number);
        assert(*self matches Type::Bool ==> self@ == TypeSpec::Bool);
        assert(forall|f: Func| *self == Type::Func(f) ==> self@ == TypeSpec::Func(f@));
        assert(forall|o: Obj| *self == Type::Obj(o) ==> self@ == TypeSpec::Obj(o@));
    }
}

impl Func {
    /// The view of a `Func`, field by field.
    pub proof fn lemma_view(&self)
        ensures
            self@.name == self.name@,
            self@.signature == match self.signature {
                Some(s) => Some(s@),
                None => None::<Seq<char>>,
            },
            self@.ret_type == match self.ret_type {
                Some(s) => Some(s@),
                None => None::<Seq<char>>,
            },
            self@.ret == match self.ret {
                Some(b) => Some(Box::new((*b)@)),
                None => None::<Box<TypeSpec>>,
            },
    {
        assert(self@.name == self.name@);
        assert(self@.signature == match self.signature {
            Some(s) => Some(s@),
            None => None::<Seq<char>>,
        });
        assert(self@.ret_type == match self.ret_type {
            Some(s) => Some(s@),
            None => None::<Seq<char>>,
        });
        assert(self@.ret == match self.ret {
            Some(b) => Some(Box::new((*b)@)),
            None => None::<Box<TypeSpec>>,
        });
    }
}

/// A well-formed exported type: every object anywhere in it is read-only
/// and holds each property name once.
pub open spec fn wf_tree(t: Type) -> bool
    decreases t,
{
    match t {
        Type::Func(f) => wf_func_tree(f),
        Type::Obj(o) => wf_obj_tree(o),
        _ => true,
    }
}

/// A well-formed callable: its resolved return type, if any, is a
/// well-formed tree.
pub open spec fn wf_func_tree(f: Func) -> bool
    decreases f,
{
    match f.ret {
        Some(b) => wf_tree(*b),
        None => true,
    }
}

/// A well-formed object: read-only, each property name held once, and
/// every property value a well-formed tree.
pub open spec fn wf_obj_tree(o: Obj) -> bool
    decreases o,
{
    o.read_only && o.wf_props() && forall|i: int|
        0 <= i < o.properties@.len() ==> wf_tree(#[trigger] o.properties@[i].1)
}

/// The view of an object is its name, its read-only mark, and the
/// mapping its property list denotes.
pub proof fn lemma_obj_view(o: &Obj)
    ensures
        o@.name == o.name@,
        o@.read_only == o.read_only,
        o@.properties == obj_props_to(o, o.properties@.len() as int),
{
    assert(o@.name == o.name@);
    assert(o@.read_only == o.read_only);
    assert(o@.properties == obj_props_to(o, o.properties@.len() as int));
}

/// Two objects with pointwise-equal property prefixes denote the same
/// mapping up to that prefix.
pub proof fn lemma_obj_props_prefix(a: &Obj, b: &Obj, n: int)
    requires
        n <= a.properties@.len(),
        n <= b.properties@.len(),
        forall|j: int| 0 <= j < n ==> #[trigger] a.properties@[j] == b.properties@[j],
    ensures
        obj_props_to(a, n) == obj_props_to(b, n),
    decreases n,
{
    if n > 0 {
        lemma_obj_props_prefix(a, b, n - 1);
        assert(obj_props_to(a, n) == obj_props_to(a, n - 1).insert(
            a.properties@[n - 1].0@,
            a.properties@[n - 1].1@,
        ));
        assert(obj_props_to(b, n) == obj_props_to(b, n - 1).insert(
            b.properties@[n - 1].0@,
            b.properties@[n - 1].1@,
        ));
        assert(obj_props_to(a, n) == obj_props_to(b, n));
    } else {
        assert(obj_props_to(a, n) == Map::<Seq<char>, TypeSpec>::empty());
        assert(obj_props_to(b, n) == Map::<Seq<char>, TypeSpec>::empty());
    }
}

/// Every key of the denoted mapping is a listed key, every listed key is
/// in its domain, and the domain is finite.
pub proof fn lemma_obj_props_dom(o: &Obj, n: int)
    requires
        n <= o.properties@.len(),
    ensures
        obj_props_to(o, n).dom().finite(),
        forall|k: Seq<char>|
            #[trigger] obj_props_to(o, n).dom().contains(k) ==> exists|i: int|
                0 <= i < n && #[trigger] o.properties@[i].0@ == k,
        forall|i: int| 0 <= i < n ==> obj_props_to(o, n).dom().contains(#[trigger] o.properties@[i].0@),
    decreases n,
{
    if n <= 0 {
        assert(obj_props_to(o, n) == Map::<Seq<char>, TypeSpec>::empty());
        assert(obj_props_to(o, n).dom().finite());
        assert(forall|k: Seq<char>| !(#[trigger] obj_props_to(o, n).dom().contains(k)));
    } else {
        lemma_obj_props_dom(o, n - 1);
        assert(obj_props_to(o, n) == obj_props_to(o, n - 1).insert(
            o.properties@[n - 1].0@,
            o.properties@[n - 1].1@,
        ));
        assert(obj_props_to(o, n).dom().finite());
        assert forall|k: Seq<char>| #[trigger] obj_props_to(o, n).dom().contains(k) implies exists|i: int|
            0 <= i < n && #[trigger] o.properties@[i].0@ == k by {
            if k == o.properties@[n - 1].0@ {
                assert(o.properties@[n - 1].0@ == k);
            } else {
                assert(obj_props_to(o, n - 1).dom().contains(k));
            }
        }
        assert forall|i: int| 0 <= i < n implies obj_props_to(o, n).dom().contains(
            #[trigger] o.properties@[i].0@,
        ) by {
            if i < n - 1 {
                assert(obj_props_to(o, n - 1).dom().contains(o.properties@[i].0@));
            }
        }
    }
}

/// Overwriting the entry at one place denotes the same mapping as
/// inserting over it, when no later entry within the prefix holds that
/// place's key.
proof fn lemma_obj_props_update(pre: &Obj, post: &Obj, i: int, n: int)
    requires
        0 <= i < n,
        n <= pre.properties@.len(),
        n <= post.properties@.len(),
        post.properties@[i].0@ == pre.properties@[i].0@,
        forall|j: int| 0 <= j < n && j != i ==> #[trigger] post.properties@[j] == pre.properties@[j],
        forall|j: int| i < j < n ==> #[trigger] pre.properties@[j].0@ != pre.properties@[i].0@,
    ensures
        obj_props_to(post, n) == obj_props_to(pre, n).insert(
            pre.properties@[i].0@,
            post.properties@[i].1@,
        ),
    decreases n,
{
    if i == n - 1 {
        lemma_obj_props_prefix(post, pre, n - 1);
        assert(obj_props_to(post, n) == obj_props_to(post, n - 1).insert(
            post.properties@[i].0@,
            post.properties@[i].1@,
        ));
        assert(obj_props_to(pre, n) == obj_props_to(pre, n - 1).insert(
            pre.properties@[i].0@,
            pre.properties@[i].1@,
        ));
        assert(obj_props_to(post, n) =~= obj_props_to(pre, n).insert(
            pre.properties@[i].0@,
            post.properties@[i].1@,
        ));
    } else {
        lemma_obj_props_update(pre, post, i, n - 1);
        assert(post.properties@[n - 1] == pre.properties@[n - 1]);
        assert(pre.properties@[n - 1].0@ != pre.properties@[i].0@);
        assert(obj_props_to(post, n) == obj_props_to(post, n - 1).insert(
            post.properties@[n - 1].0@,
            post.properties@[n - 1].1@,
        ));
        assert(obj_props_to(pre, n) == obj_props_to(pre, n - 1).insert(
            pre.properties@[n - 1].0@,
            pre.properties@[n - 1].1@,
        ));
        assert(obj_props_to(post, n) =~= obj_props_to(pre, n).insert(
            pre.properties@[i].0@,
            post.properties@[i].1@,
        ));
    }
}

/// With pairwise-distinct keys, the denoted mapping has exactly one
/// entry per listed pair.
proof fn lemma_obj_props_distinct_count(o: &Obj, n: int)
    requires
        0 <= n <= o.properties@.len(),
        forall|a: int, b: int|
            0 <= a < b < n ==> #[trigger] o.properties@[a].0@ != #[trigger] o.properties@[b].0@,
    ensures
        obj_props_to(o, n).dom().finite(),
        obj_props_to(o, n).dom().len() == n,
    decreases n,
{
    lemma_obj_props_dom(o, n);
    if n == 0 {
        assert(obj_props_to(o, n) == Map::<Seq<char>, TypeSpec>::empty());
        assert(obj_props_to(o, n).dom().len() == n);
    } else {
        lemma_obj_props_distinct_count(o, n - 1);
        lemma_obj_props_dom(o, n - 1);
        assert(!obj_props_to(o, n - 1).dom().contains(o.properties@[n - 1].0@)) by {
            if obj_props_to(o, n - 1).dom().contains(o.properties@[n - 1].0@) {
                let i = choose|i: int|
                    0 <= i < n - 1 && #[trigger] o.properties@[i].0@ == o.properties@[n - 1].0@;
                assert(o.properties@[i].0@ == o.properties@[n - 1].0@);
            }
        }
        vstd::set::axiom_set_insert_len(obj_props_to(o, n - 1).dom(), o.properties@[n - 1].0@);
        assert(obj_props_to(o, n) == obj_props_to(o, n - 1).insert(
            o.properties@[n - 1].0@,
            o.properties@[n - 1].1@,
        ));
        assert(obj_props_to(o, n).dom().len() == n);
    }
}

impl Obj {
    /// A fresh, empty namespace under the given name.
    pub fn new_namespace(name: String) -> (r: Obj)
        ensures
            r@.name == name@,
            r@.read_only == true,
            r@.properties == Map::<Seq<char>, TypeSpec>::empty(),
            r.properties@.len() == 0,
            r.wf_props(),
            r.read_only == true,
    {
        let o = Obj { name, read_only: true, properties: Vec::new() };
        proof {
            lemma_obj_view(&o);
            assert(obj_props_to(&o, 0) == Map::<Seq<char>, TypeSpec>::empty());
        }
        o
    }

    /// No property name occurs twice in the list.
    pub open spec fn wf_props(&self) -> bool {
        forall|a: int, b: int|
            0 <= a < b < self.properties@.len() ==> #[trigger] self.properties@[a].0@
                != #[trigger] self.properties@[b].0@
    }

    /// Store a property under a name: the later write wins, and no name
    /// is ever held twice.
    pub fn insert_prop(&mut self, name: String, t: Type)
        requires
            old(self).wf_props(),
        ensures
            final(self).wf_props(),
            final(self).name == old(self).name,
            final(self).read_only == old(self).read_only,
            final(self)@.name == old(self)@.name,
            final(self)@.read_only == old(self)@.read_only,
            final(self)@.properties == old(self)@.properties.insert(name@, t@),
            final(self).properties@.len() == if old(self)@.properties.dom().contains(name@) {
                old(self).properties@.len() as int
            } else {
                old(self).properties@.len() + 1 as int
            },
            wf_tree(t) && (forall|i: int|
                0 <= i < old(self).properties@.len() ==> wf_tree(
                    #[trigger] old(self).properties@[i].1,
                )) ==> forall|i: int|
                0 <= i < final(self).properties@.len() ==> wf_tree(
                    #[trigger] final(self).properties@[i].1,
                ),
    {
        let ghost pre = *self;
        let n = self.properties.len();
        let mut i: usize = 0;
        while i < n
            invariant
                pre == *old(self),
                pre.wf_props(),
                n == self.properties.len(),
                i <= n,
                *self == pre,
                forall|j: int| 0 <= j < i ==> pre.properties@[j].0@ != name@,
            decreases n - i,
        {
            if compare_strings(&self.properties[i].0, &name) {
                proof {
                    lemma_obj_view(&pre);
                    lemma_obj_props_dom(&pre, n as int);
                    assert(pre.properties@[i as int].0@ == name@);
                    assert(pre@.properties.dom().contains(name@));
                }
                self.properties.set(i, (name, t));
                proof {
                    lemma_obj_view(self);
                    assert(forall|j: int|
                        0 <= j < n && j != i ==> #[trigger] self.properties@[j]
                            == pre.properties@[j]);
                    assert(self.properties@[i as int].0@ == pre.properties@[i as int].0@);
                    assert forall|j: int| i < j < n implies #[trigger] pre.properties@[j].0@
                        != pre.properties@[i as int].0@ by {
                        assert(pre.wf_props());
                        assert(0 <= i as int && i < j && j < pre.properties@.len());
                    }
                    lemma_obj_props_update(&pre, self, i as int, n as int);
                    assert(self.properties@[i as int].1@ == t@);
                    assert(self@.properties == pre@.properties.insert(name@, t@));
                    assert forall|k: int| 0 <= k < n implies #[trigger] self.properties@[k].0@
                        == pre.properties@[k].0@ by {
                        if k == i {
                            assert(self.properties@[k].0 == name);
                        }
                    }
                    assert forall|a: int, b: int|
                        0 <= a < b < self.properties@.len() implies #[trigger] self.properties@[a].0@
                        != #[trigger] self.properties@[b].0@ by {
                        assert(pre.wf_props());
                        assert(self.properties@[a].0@ == pre.properties@[a].0@);
                        assert(self.properties@[b].0@ == pre.properties@[b].0@);
                        assert(pre.properties@[a].0@ != pre.properties@[b].0@);
                    }
                    assert(self.wf_props());
                    assert(self@.name == old(self)@.name);
                    assert(self@.read_only == old(self)@.read_only);
                    assert(self@.properties == old(self)@.properties.insert(name@, t@));
                    assert(old(self)@.properties.dom().contains(name@));
                    assert(self.properties@.len() == old(self).properties@.len());
                    if wf_tree(t) && (forall|a: int|
                        0 <= a < pre.properties@.len() ==> wf_tree(
                            #[trigger] pre.properties@[a].1,
                        )) {
                        assert forall|a: int|
                            0 <= a < self.properties@.len() implies wf_tree(
                            #[trigger] self.properties@[a].1,
                        ) by {
                            if a != i {
                                assert(self.properties@[a] == pre.properties@[a]);
                            }
                        }
                    }
                }
                return ;
            }
            i += 1;
        }
        proof {
            lemma_obj_view(&pre);
            lemma_obj_props_dom(&pre, n as int);
            assert(!pre@.properties.dom().contains(name@)) by {
                if obj_props_to(&pre, n as int).dom().contains(name@) {
                    let j = choose|j: int|
                        0 <= j < n && #[trigger] pre.properties@[j].0@ == name@;
                    assert(pre.properties@[j].0@ == name@);
                }
            }
        }
        self.properties.push((name, t));
        proof {
            lemma_obj_view(self);
            assert(forall|j: int|
                0 <= j < n ==> #[trigger] self.properties@[j] == pre.properties@[j]);
            lemma_obj_props_prefix(self, &pre, n as int);
            assert(self.properties@[n as int] == (name, t));
            assert(obj_props_to(self, n + 1 as int) == obj_props_to(self, n as int).insert(
                name@,
                t@,
            ));
            assert(self@.properties == pre@.properties.insert(name@, t@));
            assert forall|a: int, b: int|
                0 <= a < b < self.properties@.len() implies #[trigger] self.properties@[a].0@
                != #[trigger] self.properties@[b].0@ by {
                assert(pre.wf_props());
                if b < self.properties@.len() - 1 {
                    assert(self.properties@[a].0@ == pre.properties@[a].0@);
                    assert(self.properties@[b].0@ == pre.properties@[b].0@);
                    assert(pre.properties@[a].0@ != pre.properties@[b].0@);
                } else {
                    assert(self.properties@[a].0@ == pre.properties@[a].0@);
                    assert(self.properties@[b].0@ == name@);
                    assert(pre.properties@[a].0@ != name@);
                }
            }
            assert(self.wf_props());
            assert(self@.name == old(self)@.name);
            assert(self@.read_only == old(self)@.read_only);
            assert(self@.properties == old(self)@.properties.insert(name@, t@));
            assert(!old(self)@.properties.dom().contains(name@));
            assert(self.properties@.len() == old(self).properties@.len() + 1);
            if wf_tree(t) && (forall|a: int|
                0 <= a < pre.properties@.len() ==> wf_tree(#[trigger] pre.properties@[a].1)) {
                assert forall|a: int|
                    0 <= a < self.properties@.len() implies wf_tree(
                    #[trigger] self.properties@[a].1,
                ) by {
                    if a < self.properties@.len() - 1 {
                        assert(self.properties@[a] == pre.properties@[a]);
                    } else {
                        assert(self.properties@[a].1 == t);
                    }
                }
            }
        }
    }

    /// In a well-formed object the property count is exactly the number
    /// of distinct property names.
    pub proof fn lemma_count_is_distinct_names(&self)
        requires
            self.wf_props(),
        ensures
            self@.properties.dom().finite(),
            self@.properties.dom().len() == self.properties@.len(),
    {
        lemma_obj_view(self);
        lemma_obj_props_distinct_count(self, self.properties@.len() as int);
        assert(self@.properties.dom().finite());
        assert(self@.properties.dom().len() == self.properties@.len());
    }
}

/// Character-for-character equality of two strings.
pub fn compare_strings(a: &String, b: &String) -> (r: bool)
    ensures
        r == (a@ == b@),
{
    a.eq(b)
}

/// One declared parameter of an exported callable, as raw schema text.
#[derive(Debug, PartialEq, Eq)]
pub struct VmodFuncArg {
    pub name: String,
    pub input_type: String,
}

/// One exported callable in raw schema terms: its name, its declared
/// parameters and its declared return-type name.
#[derive(Debug, PartialEq, Eq)]
pub struct VmodFunc {
    pub name: String,
    pub args: Vec<VmodFuncArg>,
    pub ret_type: String,
}

/// A module's interface in raw schema terms: the schema format version,
/// the declared lifecycle events, and the declared callables.
#[derive(Debug, PartialEq, Eq)]
pub struct VmodJsonData {
    pub vmod_version: String,
    pub events: Vec<String>,
    pub funcs: Vec<VmodFunc>,
}

} // verus!

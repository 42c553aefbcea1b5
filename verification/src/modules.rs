//! A directory of per-module type markers, keyed by module and type name.
//!
//! This is the type dictionary used by chains whose metadata is not
//! self-describing: each module maps type names to a [`TypeMarker`], a small
//! description of how the type's values are laid out.  The directory itself
//! is ordinary data; lookups are by first match on the name, and merging two
//! directories lets the right-hand side win on conflicts.

use vstd::prelude::*;

verus! {

/// A marker describing the shape of a named type.
#[derive(Debug, PartialEq)]
pub enum TypeMarker {
    /// A reference to another named type.
    TypePointer(String),
    /// The unit-like absence of data.
    Null,
    Bool,
    U32,
    U64,
    U128,
    /// A struct, as an ordered list of named fields.
    Struct(Vec<StructField>),
    /// An enum, as an ordered list of variants with optional payloads.
    Enum(Vec<EnumField>),
    /// A bit-set, as named flags with their bit values.
    BitSet(Vec<SetField>),
    /// A tuple of markers.
    Tuple(Vec<TypeMarker>),
}

/// One named struct field.
#[derive(Debug, PartialEq)]
pub struct StructField {
    pub name: String,
    pub ty: TypeMarker,
}

/// One enum variant with an optional payload.
#[derive(Debug, PartialEq)]
pub struct EnumField {
    pub name: String,
    pub value: Option<TypeMarker>,
}

/// One named flag of a bit-set.
#[derive(Debug, PartialEq)]
pub struct SetField {
    pub name: String,
    pub num: u8,
}

/// Structural equality of markers, with strings compared by content.
pub open spec fn marker_eq(a: TypeMarker, b: TypeMarker) -> bool
    decreases a,
{
    match (a, b) {
        (TypeMarker::TypePointer(x), TypeMarker::TypePointer(y)) => x@ == y@,
        (TypeMarker::Null, TypeMarker::Null) => true,
        (TypeMarker::Bool, TypeMarker::Bool) => true,
        (TypeMarker::U32, TypeMarker::U32) => true,
        (TypeMarker::U64, TypeMarker::U64) => true,
        (TypeMarker::U128, TypeMarker::U128) => true,
        (TypeMarker::Struct(xs), TypeMarker::Struct(ys)) => struct_fields_eq(xs@, ys@),
        (TypeMarker::Enum(xs), TypeMarker::Enum(ys)) => enum_fields_eq(xs@, ys@),
        (TypeMarker::BitSet(xs), TypeMarker::BitSet(ys)) => set_fields_eq(xs@, ys@),
        (TypeMarker::Tuple(xs), TypeMarker::Tuple(ys)) => markers_eq(xs@, ys@),
        _ => false,
    }
}

/// Elementwise structural equality of marker lists.
pub open spec fn markers_eq(a: Seq<TypeMarker>, b: Seq<TypeMarker>) -> bool
    decreases a,
{
    a.len() == b.len() && (a.len() == 0 || (marker_eq(a[0], b[0]) && markers_eq(
        a.subrange(1, a.len() as int),
        b.subrange(1, b.len() as int),
    )))
}

/// Elementwise structural equality of struct-field lists.
pub open spec fn struct_fields_eq(a: Seq<StructField>, b: Seq<StructField>) -> bool
    decreases a,
{
    a.len() == b.len() && (a.len() == 0 || (a[0].name@ == b[0].name@ && marker_eq(
        a[0].ty,
        b[0].ty,
    ) && struct_fields_eq(a.subrange(1, a.len() as int), b.subrange(1, b.len() as int))))
}

/// Elementwise structural equality of enum-field lists.
pub open spec fn enum_fields_eq(a: Seq<EnumField>, b: Seq<EnumField>) -> bool
    decreases a,
{
    a.len() == b.len() && (a.len() == 0 || (a[0].name@ == b[0].name@ && (match (
    a[0].value,
    b[0].value,
    ) {
        (Option::Some(x), Option::Some(y)) => marker_eq(x, y),
        (Option::None, Option::None) => true,
        _ => false,
    }) && enum_fields_eq(a.subrange(1, a.len() as int), b.subrange(1, b.len() as int))))
}

/// Elementwise equality of set-field lists.
pub open spec fn set_fields_eq(a: Seq<SetField>, b: Seq<SetField>) -> bool
    decreases a,
{
    a.len() == b.len() && (a.len() == 0 || (a[0].name@ == b[0].name@ && a[0].num == b[0].num
        && set_fields_eq(a.subrange(1, a.len() as int), b.subrange(1, b.len() as int))))
}

/// The first marker under a name, if any.
pub open spec fn assoc_marker(s: Seq<(String, TypeMarker)>, k: Seq<char>) -> Option<TypeMarker>
    decreases s.len(),
{
    if s.len() == 0 {
        Option::None
    } else if s[0].0@ == k {
        Option::Some(s[0].1)
    } else {
        assoc_marker(s.subrange(1, s.len() as int), k)
    }
}

/// The first module under a name, if any.
pub open spec fn assoc_module(s: Seq<(String, ModuleTypes)>, k: Seq<char>) -> Option<ModuleTypes>
    decreases s.len(),
{
    if s.len() == 0 {
        Option::None
    } else if s[0].0@ == k {
        Option::Some(s[0].1)
    } else {
        assoc_module(s.subrange(1, s.len() as int), k)
    }
}

/// Every module's type table, flattened in storage order.
pub open spec fn spec_all_types(s: Seq<(String, ModuleTypes)>) -> Seq<(String, TypeMarker)>
    decreases s.len(),
{
    if s.len() == 0 {
        Seq::empty()
    } else {
        s[0].1.types@ + spec_all_types(s.subrange(1, s.len() as int))
    }
}

/// Flattening distributes over concatenation.
proof fn lemma_all_types_append(a: Seq<(String, ModuleTypes)>, b: Seq<(String, ModuleTypes)>)
    ensures
        spec_all_types(a + b) == spec_all_types(a) + spec_all_types(b),
    decreases a.len(),
{
    if a.len() == 0 {
        assert(a + b =~= b);
        assert(spec_all_types(a) + spec_all_types(b) =~= spec_all_types(b));
    } else {
        assert((a + b)[0] == a[0]);
        assert((a + b).subrange(1, (a + b).len() as int) =~= a.subrange(1, a.len() as int) + b);
        lemma_all_types_append(a.subrange(1, a.len() as int), b);
        assert(a[0].1.types@ + (spec_all_types(a.subrange(1, a.len() as int)) + spec_all_types(
            b,
        )) =~= (a[0].1.types@ + spec_all_types(a.subrange(1, a.len() as int)))
            + spec_all_types(b));
    }
}

/// Flattening one more module appends that module's table.
proof fn lemma_all_types_snoc(s: Seq<(String, ModuleTypes)>, m: int)
    requires
        0 <= m < s.len(),
    ensures
        spec_all_types(s.subrange(0, m + 1)) == spec_all_types(s.subrange(0, m))
            + s[m].1.types@,
{
    assert(s.subrange(0, m + 1) =~= s.subrange(0, m) + s.subrange(m, m + 1));
    lemma_all_types_append(s.subrange(0, m), s.subrange(m, m + 1));
    let single = s.subrange(m, m + 1);
    assert(single[0] == s[m]);
    assert(single.subrange(1, 1) =~= Seq::<(String, ModuleTypes)>::empty());
    assert(spec_all_types(single.subrange(1, 1)) =~= Seq::<(String, TypeMarker)>::empty());
    assert(spec_all_types(single) =~= s[m].1.types@);
}

/// Map of type names to their markers.
#[derive(Debug, PartialEq)]
pub struct ModuleTypes {
    /// Type name -> type marker, looked up by first match.
    pub types: Vec<(String, TypeMarker)>,
}

/// Types for each module.
#[derive(Debug, PartialEq)]
pub struct Modules {
    /// Module name -> type map of the module.
    pub modules: Vec<(String, ModuleTypes)>,
}

/// A deep copy of a marker, equal to the original under [`marker_eq`].
#[verifier::loop_isolation(false)]
pub fn clone_marker(m: &TypeMarker) -> (r: TypeMarker)
    ensures
        marker_eq(r, *m),
    decreases *m,
{
    match m {
        TypeMarker::TypePointer(s) => TypeMarker::TypePointer(s.clone()),
        TypeMarker::Null => TypeMarker::Null,
        TypeMarker::Bool => TypeMarker::Bool,
        TypeMarker::U32 => TypeMarker::U32,
        TypeMarker::U64 => TypeMarker::U64,
        TypeMarker::U128 => TypeMarker::U128,
        TypeMarker::Struct(fields) => {
            let n: usize = fields.len();
            let mut out: Vec<StructField> = Vec::new();
            let mut i: usize = 0;
            while i < n
                invariant
                    0 <= i <= n,
                    n == fields@.len(),
                    out@.len() == i,
                    forall|j: int| 0 <= j < i ==> (#[trigger] out@[j]).name@ == fields@[j].name@
                        && marker_eq(out@[j].ty, fields@[j].ty),
                decreases n - i,
            {
                let f = &fields[i];
                out.push(StructField { name: f.name.clone(), ty: clone_marker(&f.ty) });
                i = i + 1;
            }
            proof {
                lemma_struct_fields_eq_pointwise(out@, fields@);
            }
            TypeMarker::Struct(out)
        },
        TypeMarker::Enum(fields) => {
            let n: usize = fields.len();
            let mut out: Vec<EnumField> = Vec::new();
            let mut i: usize = 0;
            while i < n
                invariant
                    0 <= i <= n,
                    n == fields@.len(),
                    out@.len() == i,
                    forall|j: int| 0 <= j < i ==> (#[trigger] out@[j]).name@ == fields@[j].name@
                        && (match (out@[j].value, fields@[j].value) {
                        (Option::Some(x), Option::Some(y)) => marker_eq(x, y),
                        (Option::None, Option::None) => true,
                        _ => false,
                    }),
                decreases n - i,
            {
                let f = &fields[i];
                let value = match &f.value {
                    Option::Some(v) => Option::Some(clone_marker(v)),
                    Option::None => Option::None,
                };
                out.push(EnumField { name: f.name.clone(), value });
                i = i + 1;
            }
            proof {
                lemma_enum_fields_eq_pointwise(out@, fields@);
            }
            TypeMarker::Enum(out)
        },
        TypeMarker::BitSet(fields) => {
            let n: usize = fields.len();
            let mut out: Vec<SetField> = Vec::new();
            let mut i: usize = 0;
            while i < n
                invariant
                    0 <= i <= n,
                    n == fields@.len(),
                    out@.len() == i,
                    forall|j: int| 0 <= j < i ==> (#[trigger] out@[j]).name@ == fields@[j].name@
                        && out@[j].num == fields@[j].num,
                decreases n - i,
            {
                let f = &fields[i];
                out.push(SetField { name: f.name.clone(), num: f.num });
                i = i + 1;
            }
            proof {
                lemma_set_fields_eq_pointwise(out@, fields@);
            }
            TypeMarker::BitSet(out)
        },
        TypeMarker::Tuple(items) => {
            let n: usize = items.len();
            let mut out: Vec<TypeMarker> = Vec::new();
            let mut i: usize = 0;
            while i < n
                invariant
                    0 <= i <= n,
                    n == items@.len(),
                    out@.len() == i,
                    forall|j: int| 0 <= j < i ==> marker_eq(#[trigger] out@[j], items@[j]),
                decreases n - i,
            {
                out.push(clone_marker(&items[i]));
                i = i + 1;
            }
            proof {
                lemma_markers_eq_pointwise(out@, items@);
            }
            TypeMarker::Tuple(out)
        },
    }
}

/// Pointwise equality of marker lists gives elementwise equality.
proof fn lemma_markers_eq_pointwise(a: Seq<TypeMarker>, b: Seq<TypeMarker>)
    requires
        a.len() == b.len(),
        forall|j: int| 0 <= j < a.len() ==> marker_eq(#[trigger] a[j], b[j]),
    ensures
        markers_eq(a, b),
    decreases a.len(),
{
    if a.len() > 0 {
        assert(marker_eq(a[0], b[0]));
        let a1 = a.subrange(1, a.len() as int);
        let b1 = b.subrange(1, b.len() as int);
        assert forall|j: int| 0 <= j < a1.len() implies marker_eq(#[trigger] a1[j], b1[j]) by {
            assert(a1[j] == a[j + 1]);
            assert(b1[j] == b[j + 1]);
        }
        lemma_markers_eq_pointwise(a1, b1);
    }
}

/// Pointwise equality of struct-field lists gives elementwise equality.
proof fn lemma_struct_fields_eq_pointwise(a: Seq<StructField>, b: Seq<StructField>)
    requires
        a.len() == b.len(),
        forall|j: int| 0 <= j < a.len() ==> (#[trigger] a[j]).name@ == b[j].name@ && marker_eq(
            a[j].ty,
            b[j].ty,
        ),
    ensures
        struct_fields_eq(a, b),
    decreases a.len(),
{
    if a.len() > 0 {
        let a1 = a.subrange(1, a.len() as int);
        let b1 = b.subrange(1, b.len() as int);
        assert forall|j: int| 0 <= j < a1.len() implies (#[trigger] a1[j]).name@ == b1[j].name@
            && marker_eq(a1[j].ty, b1[j].ty) by {
            assert(a1[j] == a[j + 1]);
            assert(b1[j] == b[j + 1]);
        }
        lemma_struct_fields_eq_pointwise(a1, b1);
    }
}

/// Pointwise equality of enum-field lists gives elementwise equality.
proof fn lemma_enum_fields_eq_pointwise(a: Seq<EnumField>, b: Seq<EnumField>)
    requires
        a.len() == b.len(),
        forall|j: int| 0 <= j < a.len() ==> (#[trigger] a[j]).name@ == b[j].name@ && (match (
        a[j].value,
        b[j].value,
        ) {
            (Option::Some(x), Option::Some(y)) => marker_eq(x, y),
            (Option::None, Option::None) => true,
            _ => false,
        }),
    ensures
        enum_fields_eq(a, b),
    decreases a.len(),
{
    if a.len() > 0 {
        let a1 = a.subrange(1, a.len() as int);
        let b1 = b.subrange(1, b.len() as int);
        assert forall|j: int| 0 <= j < a1.len() implies (#[trigger] a1[j]).name@ == b1[j].name@
            && (match (a1[j].value, b1[j].value) {
            (Option::Some(x), Option::Some(y)) => marker_eq(x, y),
            (Option::None, Option::None) => true,
            _ => false,
        }) by {
            assert(a1[j] == a[j + 1]);
            assert(b1[j] == b[j + 1]);
        }
        lemma_enum_fields_eq_pointwise(a1, b1);
    }
}

/// Pointwise equality of set-field lists gives elementwise equality.
proof fn lemma_set_fields_eq_pointwise(a: Seq<SetField>, b: Seq<SetField>)
    requires
        a.len() == b.len(),
        forall|j: int| 0 <= j < a.len() ==> (#[trigger] a[j]).name@ == b[j].name@ && a[j].num
            == b[j].num,
    ensures
        set_fields_eq(a, b),
    decreases a.len(),
{
    if a.len() > 0 {
        let a1 = a.subrange(1, a.len() as int);
        let b1 = b.subrange(1, b.len() as int);
        assert forall|j: int| 0 <= j < a1.len() implies (#[trigger] a1[j]).name@ == b1[j].name@
            && a1[j].num == b1[j].num by {
            assert(a1[j] == a[j + 1]);
            assert(b1[j] == b[j + 1]);
        }
        lemma_set_fields_eq_pointwise(a1, b1);
    }
}

/// A lookup in a concatenation takes the left table's entry when it has one.
proof fn lemma_assoc_append(a: Seq<(String, TypeMarker)>, b: Seq<(String, TypeMarker)>,
    k: Seq<char>)
    ensures
        assoc_marker(a + b, k) == (match assoc_marker(a, k) {
            Option::Some(m) => Option::Some(m),
            Option::None => assoc_marker(b, k),
        }),
    decreases a.len(),
{
    if a.len() == 0 {
        assert(a + b =~= b);
    } else {
        let t = (a + b).subrange(1, (a + b).len() as int);
        assert(t =~= a.subrange(1, a.len() as int) + b);
        assert((a + b)[0] == a[0]);
        lemma_assoc_append(a.subrange(1, a.len() as int), b, k);
    }
}

/// A lookup sees only names and marker content: tables whose entries agree
/// pointwise under [`marker_eq`] answer alike.
proof fn lemma_assoc_pointwise(a: Seq<(String, TypeMarker)>, b: Seq<(String, TypeMarker)>,
    k: Seq<char>)
    requires
        a.len() == b.len(),
        forall|j: int| 0 <= j < a.len() ==> (#[trigger] a[j]).0@ == b[j].0@ && marker_eq(
            a[j].1,
            b[j].1,
        ),
    ensures
        match assoc_marker(a, k) {
            Option::Some(m) => assoc_marker(b, k) matches Option::Some(m2) && marker_eq(m, m2)
                && marker_eq(m2, m),
            Option::None => assoc_marker(b, k) is None,
        },
    decreases a.len(),
{
    if a.len() > 0 {
        lemma_marker_eq_sym(a[0].1, b[0].1);
        let a1 = a.subrange(1, a.len() as int);
        let b1 = b.subrange(1, b.len() as int);
        assert forall|j: int| 0 <= j < a1.len() implies (#[trigger] a1[j]).0@ == b1[j].0@
            && marker_eq(a1[j].1, b1[j].1) by {
            assert(a1[j] == a[j + 1]);
            assert(b1[j] == b[j + 1]);
        }
        lemma_assoc_pointwise(a1, b1, k);
    }
}

/// `marker_eq` is symmetric.
proof fn lemma_marker_eq_sym(a: TypeMarker, b: TypeMarker)
    ensures
        marker_eq(a, b) == marker_eq(b, a),
    decreases a,
{
    match (a, b) {
        (TypeMarker::Struct(xs), TypeMarker::Struct(ys)) => {
            lemma_struct_fields_eq_sym(xs@, ys@);
        },
        (TypeMarker::Enum(xs), TypeMarker::Enum(ys)) => {
            lemma_enum_fields_eq_sym(xs@, ys@);
        },
        (TypeMarker::BitSet(xs), TypeMarker::BitSet(ys)) => {
            lemma_set_fields_eq_sym(xs@, ys@);
        },
        (TypeMarker::Tuple(xs), TypeMarker::Tuple(ys)) => {
            lemma_markers_eq_sym(xs@, ys@);
        },
        _ => {},
    }
}

/// `markers_eq` is symmetric.
proof fn lemma_markers_eq_sym(a: Seq<TypeMarker>, b: Seq<TypeMarker>)
    ensures
        markers_eq(a, b) == markers_eq(b, a),
    decreases a,
{
    if a.len() > 0 && b.len() > 0 {
        lemma_marker_eq_sym(a[0], b[0]);
        lemma_markers_eq_sym(a.subrange(1, a.len() as int), b.subrange(1, b.len() as int));
    }
}

/// `struct_fields_eq` is symmetric.
proof fn lemma_struct_fields_eq_sym(a: Seq<StructField>, b: Seq<StructField>)
    ensures
        struct_fields_eq(a, b) == struct_fields_eq(b, a),
    decreases a,
{
    if a.len() > 0 && b.len() > 0 {
        lemma_marker_eq_sym(a[0].ty, b[0].ty);
        lemma_struct_fields_eq_sym(
            a.subrange(1, a.len() as int),
            b.subrange(1, b.len() as int),
        );
    }
}

/// `enum_fields_eq` is symmetric.
proof fn lemma_enum_fields_eq_sym(a: Seq<EnumField>, b: Seq<EnumField>)
    ensures
        enum_fields_eq(a, b) == enum_fields_eq(b, a),
    decreases a,
{
    if a.len() > 0 && b.len() > 0 {
        match (a[0].value, b[0].value) {
            (Option::Some(x), Option::Some(y)) => {
                lemma_marker_eq_sym(x, y);
            },
            _ => {},
        }
        lemma_enum_fields_eq_sym(a.subrange(1, a.len() as int), b.subrange(1, b.len() as int));
    }
}

/// `set_fields_eq` is symmetric.
proof fn lemma_set_fields_eq_sym(a: Seq<SetField>, b: Seq<SetField>)
    ensures
        set_fields_eq(a, b) == set_fields_eq(b, a),
    decreases a,
{
    if a.len() > 0 && b.len() > 0 {
        lemma_set_fields_eq_sym(a.subrange(1, a.len() as int), b.subrange(1, b.len() as int));
    }
}

/// The first table entry under a name, if any.
fn marker_lookup<'a>(table: &'a Vec<(String, TypeMarker)>, key: &str) -> (r: Option<
    &'a TypeMarker,
>)
    ensures
        match r {
            Option::Some(m) => assoc_marker(table@, key@) == Option::Some(*m),
            Option::None => assoc_marker(table@, key@) is None,
        },
{
    let owned: String = key.to_owned();
    let n: usize = table.len();
    let mut i: usize = 0;
    proof {
        assert(table@.subrange(0, n as int) =~= table@);
    }
    while i < n
        invariant
            0 <= i <= n,
            n == table.len(),
            owned@ == key@,
            assoc_marker(table@, key@) == assoc_marker(
                table@.subrange(i as int, n as int),
                key@,
            ),
        decreases n - i,
    {
        if table[i].0 == owned {
            proof {
                let tail = table@.subrange(i as int, n as int);
                assert(tail[0] == table@[i as int]);
            }
            return Option::Some(&table[i].1);
        }
        proof {
            let tail = table@.subrange(i as int, n as int);
            assert(tail[0] == table@[i as int]);
            assert(tail.subrange(1, tail.len() as int) =~= table@.subrange(i + 1, n as int));
        }
        i = i + 1;
    }
    proof {
        assert(table@.subrange(n as int, n as int) =~= Seq::empty());
    }
    Option::None
}

impl ModuleTypes {
    /// The marker registered under a type name, if any.
    pub fn get(&self, ty: &str) -> (r: Option<&TypeMarker>)
        ensures
            match r {
                Option::Some(m) => assoc_marker(self.types@, ty@) == Option::Some(*m),
                Option::None => assoc_marker(self.types@, ty@) is None,
            },
    {
        marker_lookup(&self.types, ty)
    }

    /// Merge this map with another into a new one; `other` takes priority on
    /// conflicting names.
    pub fn merge(&self, other: &ModuleTypes) -> (r: ModuleTypes)
        ensures
            forall|k: Seq<char>|
                match #[trigger] assoc_marker(other.types@, k) {
                    Option::Some(m) => assoc_marker(r.types@, k) matches Option::Some(m2)
                        && marker_eq(m2, m),
                    Option::None => match assoc_marker(self.types@, k) {
                        Option::Some(m) => assoc_marker(r.types@, k) matches Option::Some(m2)
                            && marker_eq(m2, m),
                        Option::None => assoc_marker(r.types@, k) is None,
                    },
                },
    {
        let mut out: Vec<(String, TypeMarker)> = Vec::new();
        let mut i: usize = 0;
        let n1: usize = other.types.len();
        while i < n1
            invariant
                0 <= i <= n1,
                n1 == other.types.len(),
                out@.len() == i,
                forall|j: int| 0 <= j < i ==> (#[trigger] out@[j]).0@ == other.types@[j].0@
                    && marker_eq(out@[j].1, other.types@[j].1),
            decreases n1 - i,
        {
            let p = &other.types[i];
            out.push((p.0.clone(), clone_marker(&p.1)));
            i = i + 1;
        }
        let ghost other_part = out@;
        let n2: usize = self.types.len();
        let mut j: usize = 0;
        while j < n2
            invariant
                0 <= j <= n2,
                n2 == self.types.len(),
                out@.len() == other_part.len() + j,
                out@.subrange(0, other_part.len() as int) == other_part,
                other_part.len() == other.types@.len(),
                forall|q: int| 0 <= q < other_part.len() ==> (#[trigger] other_part[q]).0@
                    == other.types@[q].0@ && marker_eq(other_part[q].1, other.types@[q].1),
                forall|q: int| 0 <= q < j ==> (#[trigger] out@[other_part.len() + q]).0@
                    == self.types@[q].0@ && marker_eq(out@[other_part.len() + q].1,
                    self.types@[q].1),
            decreases n2 - j,
        {
            let p = &self.types[j];
            out.push((p.0.clone(), clone_marker(&p.1)));
            proof {
                assert(out@.subrange(0, other_part.len() as int) =~= other_part);
            }
            j = j + 1;
        }
        proof {
            let self_part = out@.subrange(other_part.len() as int, out@.len() as int);
            assert(out@ =~= other_part + self_part);
            assert forall|q: int| 0 <= q < other.types@.len() implies (#[trigger] other.types@[q]).0@
                == other_part[q].0@ && marker_eq(other.types@[q].1, other_part[q].1) by {
                lemma_marker_eq_sym(other_part[q].1, other.types@[q].1);
            }
            assert forall|q: int| 0 <= q < self.types@.len() implies (#[trigger] self.types@[q]).0@
                == self_part[q].0@ && marker_eq(self.types@[q].1, self_part[q].1) by {
                assert(self_part[q] == out@[other_part.len() + q]);
                lemma_marker_eq_sym(out@[other_part.len() + q].1, self.types@[q].1);
            }
            assert forall|k: Seq<char>|
                match #[trigger] assoc_marker(other.types@, k) {
                    Option::Some(m) => assoc_marker(out@, k) matches Option::Some(m2)
                        && marker_eq(m2, m),
                    Option::None => match assoc_marker(self.types@, k) {
                        Option::Some(m) => assoc_marker(out@, k) matches Option::Some(m2)
                            && marker_eq(m2, m),
                        Option::None => assoc_marker(out@, k) is None,
                    },
                } by {
                lemma_assoc_append(other_part, self_part, k);
                lemma_assoc_pointwise(other.types@, other_part, k);
                lemma_assoc_pointwise(self.types@, self_part, k);
            }
        }
        ModuleTypes { types: out }
    }
}

impl Modules {
    /// The type map registered under a module name, if any.
    pub fn get(&self, ty: &str) -> (r: Option<&ModuleTypes>)
        ensures
            match r {
                Option::Some(m) => assoc_module(self.modules@, ty@) == Option::Some(*m),
                Option::None => assoc_module(self.modules@, ty@) is None,
            },
    {
        let owned: String = ty.to_owned();
        let n: usize = self.modules.len();
        let mut i: usize = 0;
        proof {
            assert(self.modules@.subrange(0, n as int) =~= self.modules@);
        }
        while i < n
            invariant
                0 <= i <= n,
                n == self.modules.len(),
                owned@ == ty@,
                assoc_module(self.modules@, ty@) == assoc_module(
                    self.modules@.subrange(i as int, n as int),
                    ty@,
                ),
            decreases n - i,
        {
            if self.modules[i].0 == owned {
                proof {
                    let tail = self.modules@.subrange(i as int, n as int);
                    assert(tail[0] == self.modules@[i as int]);
                }
                return Option::Some(&self.modules[i].1);
            }
            proof {
                let tail = self.modules@.subrange(i as int, n as int);
                assert(tail[0] == self.modules@[i as int]);
                assert(tail.subrange(1, tail.len() as int) =~= self.modules@.subrange(
                    i + 1,
                    n as int,
                ));
            }
            i = i + 1;
        }
        proof {
            assert(self.modules@.subrange(n as int, n as int) =~= Seq::empty());
        }
        Option::None
    }

    /// Every type in each module, flattened in storage order.
    pub fn iter_types(&self) -> (r: Vec<(&String, &TypeMarker)>)
        ensures
            r@.len() == spec_all_types(self.modules@).len(),
            forall|i: int| 0 <= i < r@.len() ==> *(#[trigger] r@[i]).0 == spec_all_types(
                self.modules@,
            )[i].0 && *r@[i].1 == spec_all_types(self.modules@)[i].1,
    {
        let ghost flat = spec_all_types(self.modules@);
        let mut out: Vec<(&String, &TypeMarker)> = Vec::new();
        let nm: usize = self.modules.len();
        let mut m: usize = 0;
        proof {
            assert(self.modules@.subrange(0, 0) =~= Seq::<(String, ModuleTypes)>::empty());
        }
        while m < nm
            invariant
                0 <= m <= nm,
                nm == self.modules.len(),
                flat == spec_all_types(self.modules@),
                out@.len() == spec_all_types(self.modules@.subrange(0, m as int)).len(),
                forall|i: int| 0 <= i < out@.len() ==> *(#[trigger] out@[i]).0
                    == spec_all_types(self.modules@.subrange(0, m as int))[i].0 && *out@[i].1
                    == spec_all_types(self.modules@.subrange(0, m as int))[i].1,
            decreases nm - m,
        {
            let ghost prefix = spec_all_types(self.modules@.subrange(0, m as int));
            proof {
                lemma_all_types_snoc(self.modules@, m as int);
            }
            let table = &self.modules[m].1.types;
            let nt: usize = table.len();
            let mut t: usize = 0;
            while t < nt
                invariant
                    0 <= t <= nt,
                    nt == table@.len(),
                    table@ == self.modules@[m as int].1.types@,
                    m < nm,
                    nm == self.modules.len(),
                    spec_all_types(self.modules@.subrange(0, m as int + 1)) == prefix + table@,
                    out@.len() == prefix.len() + t,
                    forall|i: int| 0 <= i < prefix.len() ==> *(#[trigger] out@[i]).0
                        == prefix[i].0 && *out@[i].1 == prefix[i].1,
                    forall|i: int| 0 <= i < t ==> *(#[trigger] out@[prefix.len() + i]).0
                        == table@[i].0 && *out@[prefix.len() + i].1 == table@[i].1,
                decreases nt - t,
            {
                out.push((&table[t].0, &table[t].1));
                t = t + 1;
            }
            proof {
                let next = spec_all_types(self.modules@.subrange(0, m as int + 1));
                assert(next.len() == prefix.len() + table@.len());
                assert forall|i: int| 0 <= i < out@.len() implies *(#[trigger] out@[i]).0
                    == next[i].0 && *out@[i].1 == next[i].1 by {
                    if i < prefix.len() {
                        assert(next[i] == prefix[i]);
                    } else {
                        assert(next[i] == table@[i - prefix.len()]);
                        assert(*out@[prefix.len() + (i - prefix.len())].0 == table@[i
                            - prefix.len()].0);
                    }
                }
            }
            m = m + 1;
        }
        proof {
            assert(self.modules@.subrange(0, nm as int) =~= self.modules@);
        }
        out
    }

    /// The marker registered under a module and type name, if any.
    pub fn get_type(&self, module: &str, ty: &str) -> (r: Option<&TypeMarker>)
        ensures
            match assoc_module(self.modules@, module@) {
                Option::Some(mt) => match r {
                    Option::Some(m) => assoc_marker(mt.types@, ty@) == Option::Some(*m),
                    Option::None => assoc_marker(mt.types@, ty@) is None,
                },
                Option::None => r is None,
            },
    {
        let mt = match self.get(module) {
            Option::Some(mt) => mt,
            Option::None => { return Option::None; },
        };
        marker_lookup(&mt.types, ty)
    }
}

} // verus!

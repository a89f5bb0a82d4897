//! The canonical type system: one tagged union that every catalog or query
//! type is normalized into, plus the structural wrappers for nullability,
//! arrays and user-defined types.
//!
//! `TypeV` is the mathematical value of a `Type`: the same tree with every
//! string replaced by its character sequence. All contracts speak of `TypeV`
//! through the view `t@`.

use vstd::prelude::*;

use crate::strutil::vec_str_eq;

verus! {

/// A canonical catalog type.
pub enum Type {
    /// A type not matching any of the known cases.
    Other { schema: String, name: String },
    Bool,
    Uuid,
    Text,
    VarChar,
    BpChar,
    Bytea,
    Int2,
    Int4,
    Int8,
    Serial2,
    Serial4,
    Serial8,
    Decimal,
    Numeric,
    Money,
    Float4,
    Float8,
    Timestamp,
    Date,
    Time,
    TimestampTz,
    DateTz,
    TimeTz,
    Range,
    Interval,
    Int4Range,
    Int8Range,
    NumRange,
    TsRange,
    TsTzRange,
    DateRange,
    DateMultiRange,
    Int4MultiRange,
    Int8MultiRange,
    NumMultiRange,
    TsMultiRange,
    TsTzMultiRange,
    Point,
    Line,
    LSeg,
    Box,
    Path,
    Polygon,
    Circle,
    /// A nullable wrapper; never nested directly.
    Nullable(Box<Type>),
    /// An array carrying its total dimension count; `dim` is at least 1.
    Array { elem: Box<Type>, dim: i64 },
    /// A record or enum declared elsewhere in the model tree.
    UserDefined { modpath: Vec<String>, name: String },
    Cid,
    Cidr,
    Inet,
    MacAddr,
    MacAddr8,
    Bit,
    BitVarying,
    TsVector,
    TsQuery,
    Xml,
    Json,
    Jsonb,
    JsonPath,
    Any,
    AnyArray,
    AnyElement,
    AnyNonArray,
    AnyEnum,
    AnyRange,
    AnyMultiRange,
    AnyCompatible,
    AnyCompatibleArray,
    AnyCompatibleMultiRange,
    AnyCompatibleNonArray,
    AnycompatibleRange,
    Cstring,
    Record,
    Void,
    Unknown,
}

/// The mathematical value of a `Type`.
pub enum TypeV {
    Other { schema: Seq<char>, name: Seq<char> },
    Bool,
    Uuid,
    Text,
    VarChar,
    BpChar,
    Bytea,
    Int2,
    Int4,
    Int8,
    Serial2,
    Serial4,
    Serial8,
    Decimal,
    Numeric,
    Money,
    Float4,
    Float8,
    Timestamp,
    Date,
    Time,
    TimestampTz,
    DateTz,
    TimeTz,
    Range,
    Interval,
    Int4Range,
    Int8Range,
    NumRange,
    TsRange,
    TsTzRange,
    DateRange,
    DateMultiRange,
    Int4MultiRange,
    Int8MultiRange,
    NumMultiRange,
    TsMultiRange,
    TsTzMultiRange,
    Point,
    Line,
    LSeg,
    Box,
    Path,
    Polygon,
    Circle,
    Nullable(Box<TypeV>),
    Array { elem: Box<TypeV>, dim: int },
    UserDefined { modpath: Seq<Seq<char>>, name: Seq<char> },
    Cid,
    Cidr,
    Inet,
    MacAddr,
    MacAddr8,
    Bit,
    BitVarying,
    TsVector,
    TsQuery,
    Xml,
    Json,
    Jsonb,
    JsonPath,
    Any,
    AnyArray,
    AnyElement,
    AnyNonArray,
    AnyEnum,
    AnyRange,
    AnyMultiRange,
    AnyCompatible,
    AnyCompatibleArray,
    AnyCompatibleMultiRange,
    AnyCompatibleNonArray,
    AnycompatibleRange,
    Cstring,
    Record,
    Void,
    Unknown,
}

/// The view of a canonical type, defined by structural recursion.
pub open spec fn type_v(t: Type) -> TypeV
    decreases t,
{
    match t {
        Type::Other { schema, name } => TypeV::Other { schema: schema.view(), name: name.view() },
        Type::Bool => TypeV::Bool,
        Type::Uuid => TypeV::Uuid,
        Type::Text => TypeV::Text,
        Type::VarChar => TypeV::VarChar,
        Type::BpChar => TypeV::BpChar,
        Type::Bytea => TypeV::Bytea,
        Type::Int2 => TypeV::Int2,
        Type::Int4 => TypeV::Int4,
        Type::Int8 => TypeV::Int8,
        Type::Serial2 => TypeV::Serial2,
        Type::Serial4 => TypeV::Serial4,
        Type::Serial8 => TypeV::Serial8,
        Type::Decimal => TypeV::Decimal,
        Type::Numeric => TypeV::Numeric,
        Type::Money => TypeV::Money,
        Type::Float4 => TypeV::Float4,
        Type::Float8 => TypeV::Float8,
        Type::Timestamp => TypeV::Timestamp,
        Type::Date => TypeV::Date,
        Type::Time => TypeV::Time,
        Type::TimestampTz => TypeV::TimestampTz,
        Type::DateTz => TypeV::DateTz,
        Type::TimeTz => TypeV::TimeTz,
        Type::Range => TypeV::Range,
        Type::Interval => TypeV::Interval,
        Type::Int4Range => TypeV::Int4Range,
        Type::Int8Range => TypeV::Int8Range,
        Type::NumRange => TypeV::NumRange,
        Type::TsRange => TypeV::TsRange,
        Type::TsTzRange => TypeV::TsTzRange,
        Type::DateRange => TypeV::DateRange,
        Type::DateMultiRange => TypeV::DateMultiRange,
        Type::Int4MultiRange => TypeV::Int4MultiRange,
        Type::Int8MultiRange => TypeV::Int8MultiRange,
        Type::NumMultiRange => TypeV::NumMultiRange,
        Type::TsMultiRange => TypeV::TsMultiRange,
        Type::TsTzMultiRange => TypeV::TsTzMultiRange,
        Type::Point => TypeV::Point,
        Type::Line => TypeV::Line,
        Type::LSeg => TypeV::LSeg,
        Type::Box => TypeV::Box,
        Type::Path => TypeV::Path,
        Type::Polygon => TypeV::Polygon,
        Type::Circle => TypeV::Circle,
        Type::Nullable(inner) => TypeV::Nullable(Box::new(type_v(*inner))),
        Type::Array { elem, dim } => TypeV::Array { elem: Box::new(type_v(*elem)), dim: dim as int },
        Type::UserDefined { modpath, name } => TypeV::UserDefined {
                modpath: modpath.deep_view(),
                name: name.view(),
            },
        Type::Cid => TypeV::Cid,
        Type::Cidr => TypeV::Cidr,
        Type::Inet => TypeV::Inet,
        Type::MacAddr => TypeV::MacAddr,
        Type::MacAddr8 => TypeV::MacAddr8,
        Type::Bit => TypeV::Bit,
        Type::BitVarying => TypeV::BitVarying,
        Type::TsVector => TypeV::TsVector,
        Type::TsQuery => TypeV::TsQuery,
        Type::Xml => TypeV::Xml,
        Type::Json => TypeV::Json,
        Type::Jsonb => TypeV::Jsonb,
        Type::JsonPath => TypeV::JsonPath,
        Type::Any => TypeV::Any,
        Type::AnyArray => TypeV::AnyArray,
        Type::AnyElement => TypeV::AnyElement,
        Type::AnyNonArray => TypeV::AnyNonArray,
        Type::AnyEnum => TypeV::AnyEnum,
        Type::AnyRange => TypeV::AnyRange,
        Type::AnyMultiRange => TypeV::AnyMultiRange,
        Type::AnyCompatible => TypeV::AnyCompatible,
        Type::AnyCompatibleArray => TypeV::AnyCompatibleArray,
        Type::AnyCompatibleMultiRange => TypeV::AnyCompatibleMultiRange,
        Type::AnyCompatibleNonArray => TypeV::AnyCompatibleNonArray,
        Type::AnycompatibleRange => TypeV::AnycompatibleRange,
        Type::Cstring => TypeV::Cstring,
        Type::Record => TypeV::Record,
        Type::Void => TypeV::Void,
        Type::Unknown => TypeV::Unknown,
    }
}

impl View for Type {
    type V = TypeV;

    open spec fn view(&self) -> TypeV {
        type_v(*self)
    }
}

/// Well-formedness of a canonical type: nullability never nests, and every
/// array carries a positive dimension count.
pub open spec fn wf_typev(t: TypeV) -> bool
    decreases t,
{
    match t {
        TypeV::Nullable(inner) => !(*inner is Nullable) && wf_typev(*inner),
        TypeV::Array { elem, dim } => dim >= 1 && wf_typev(*elem),
        _ => true,
    }
}

/// A distinct index for each variant, used to compare two types.
pub open spec fn rank_v(t: TypeV) -> int {
    match t {
        TypeV::Other { .. } => 0,
        TypeV::Bool => 1,
        TypeV::Uuid => 2,
        TypeV::Text => 3,
        TypeV::VarChar => 4,
        TypeV::BpChar => 5,
        TypeV::Bytea => 6,
        TypeV::Int2 => 7,
        TypeV::Int4 => 8,
        TypeV::Int8 => 9,
        TypeV::Serial2 => 10,
        TypeV::Serial4 => 11,
        TypeV::Serial8 => 12,
        TypeV::Decimal => 13,
        TypeV::Numeric => 14,
        TypeV::Money => 15,
        TypeV::Float4 => 16,
        TypeV::Float8 => 17,
        TypeV::Timestamp => 18,
        TypeV::Date => 19,
        TypeV::Time => 20,
        TypeV::TimestampTz => 21,
        TypeV::DateTz => 22,
        TypeV::TimeTz => 23,
        TypeV::Range => 24,
        TypeV::Interval => 25,
        TypeV::Int4Range => 26,
        TypeV::Int8Range => 27,
        TypeV::NumRange => 28,
        TypeV::TsRange => 29,
        TypeV::TsTzRange => 30,
        TypeV::DateRange => 31,
        TypeV::DateMultiRange => 32,
        TypeV::Int4MultiRange => 33,
        TypeV::Int8MultiRange => 34,
        TypeV::NumMultiRange => 35,
        TypeV::TsMultiRange => 36,
        TypeV::TsTzMultiRange => 37,
        TypeV::Point => 38,
        TypeV::Line => 39,
        TypeV::LSeg => 40,
        TypeV::Box => 41,
        TypeV::Path => 42,
        TypeV::Polygon => 43,
        TypeV::Circle => 44,
        TypeV::Nullable(_) => 45,
        TypeV::Array { .. } => 46,
        TypeV::UserDefined { .. } => 47,
        TypeV::Cid => 48,
        TypeV::Cidr => 49,
        TypeV::Inet => 50,
        TypeV::MacAddr => 51,
        TypeV::MacAddr8 => 52,
        TypeV::Bit => 53,
        TypeV::BitVarying => 54,
        TypeV::TsVector => 55,
        TypeV::TsQuery => 56,
        TypeV::Xml => 57,
        TypeV::Json => 58,
        TypeV::Jsonb => 59,
        TypeV::JsonPath => 60,
        TypeV::Any => 61,
        TypeV::AnyArray => 62,
        TypeV::AnyElement => 63,
        TypeV::AnyNonArray => 64,
        TypeV::AnyEnum => 65,
        TypeV::AnyRange => 66,
        TypeV::AnyMultiRange => 67,
        TypeV::AnyCompatible => 68,
        TypeV::AnyCompatibleArray => 69,
        TypeV::AnyCompatibleMultiRange => 70,
        TypeV::AnyCompatibleNonArray => 71,
        TypeV::AnycompatibleRange => 72,
        TypeV::Cstring => 73,
        TypeV::Record => 74,
        TypeV::Void => 75,
        TypeV::Unknown => 76,
    }
}

/// Two types with the same rank and no structural payload are equal.
proof fn lemma_rank_leaf_eq(x: TypeV, y: TypeV)
    requires
        rank_v(x) == rank_v(y),
        !(x matches TypeV::Other { .. } && y matches TypeV::Other { .. }),
        !(x matches TypeV::Nullable(_) && y matches TypeV::Nullable(_)),
        !(x matches TypeV::Array { .. } && y matches TypeV::Array { .. }),
        !(x matches TypeV::UserDefined { .. } && y matches TypeV::UserDefined { .. }),
    ensures
        x == y,
{
}

impl Type {
    /// Rank of this type's variant; agrees with `rank_v` on the view.
    pub fn rank(&self) -> (r: u32)
        ensures
            r == rank_v(self@),
    {
        match self {
            Type::Other { .. } => 0,
            Type::Bool => 1,
            Type::Uuid => 2,
            Type::Text => 3,
            Type::VarChar => 4,
            Type::BpChar => 5,
            Type::Bytea => 6,
            Type::Int2 => 7,
            Type::Int4 => 8,
            Type::Int8 => 9,
            Type::Serial2 => 10,
            Type::Serial4 => 11,
            Type::Serial8 => 12,
            Type::Decimal => 13,
            Type::Numeric => 14,
            Type::Money => 15,
            Type::Float4 => 16,
            Type::Float8 => 17,
            Type::Timestamp => 18,
            Type::Date => 19,
            Type::Time => 20,
            Type::TimestampTz => 21,
            Type::DateTz => 22,
            Type::TimeTz => 23,
            Type::Range => 24,
            Type::Interval => 25,
            Type::Int4Range => 26,
            Type::Int8Range => 27,
            Type::NumRange => 28,
            Type::TsRange => 29,
            Type::TsTzRange => 30,
            Type::DateRange => 31,
            Type::DateMultiRange => 32,
            Type::Int4MultiRange => 33,
            Type::Int8MultiRange => 34,
            Type::NumMultiRange => 35,
            Type::TsMultiRange => 36,
            Type::TsTzMultiRange => 37,
            Type::Point => 38,
            Type::Line => 39,
            Type::LSeg => 40,
            Type::Box => 41,
            Type::Path => 42,
            Type::Polygon => 43,
            Type::Circle => 44,
            Type::Nullable(_) => 45,
            Type::Array { .. } => 46,
            Type::UserDefined { .. } => 47,
            Type::Cid => 48,
            Type::Cidr => 49,
            Type::Inet => 50,
            Type::MacAddr => 51,
            Type::MacAddr8 => 52,
            Type::Bit => 53,
            Type::BitVarying => 54,
            Type::TsVector => 55,
            Type::TsQuery => 56,
            Type::Xml => 57,
            Type::Json => 58,
            Type::Jsonb => 59,
            Type::JsonPath => 60,
            Type::Any => 61,
            Type::AnyArray => 62,
            Type::AnyElement => 63,
            Type::AnyNonArray => 64,
            Type::AnyEnum => 65,
            Type::AnyRange => 66,
            Type::AnyMultiRange => 67,
            Type::AnyCompatible => 68,
            Type::AnyCompatibleArray => 69,
            Type::AnyCompatibleMultiRange => 70,
            Type::AnyCompatibleNonArray => 71,
            Type::AnycompatibleRange => 72,
            Type::Cstring => 73,
            Type::Record => 74,
            Type::Void => 75,
            Type::Unknown => 76,
        }
    }
}

/// Structural equality of two types, decided over their views.
pub fn type_eq(a: &Type, b: &Type) -> (r: bool)
    ensures
        r == (a@ == b@),
    decreases *a,
{
    match (a, b) {
        (Type::Other { schema: s1, name: n1 }, Type::Other { schema: s2, name: n2 }) => {
            crate::strutil::str_eq(s1.as_str(), s2.as_str())
                && crate::strutil::str_eq(n1.as_str(), n2.as_str())
        },
        (Type::Nullable(x), Type::Nullable(y)) => type_eq(x, y),
        (Type::Array { elem: x, dim: d1 }, Type::Array { elem: y, dim: d2 }) => {
            *d1 == *d2 && type_eq(x, y)
        },
        (
            Type::UserDefined { modpath: p1, name: n1 },
            Type::UserDefined { modpath: p2, name: n2 },
        ) => vec_str_eq(p1, p2) && crate::strutil::str_eq(n1.as_str(), n2.as_str()),
        _ => {
            let r = a.rank() == b.rank();
            proof {
                if rank_v(a@) == rank_v(b@) {
                    lemma_rank_leaf_eq(a@, b@);
                }
            }
            r
        },
    }
}

impl PartialEq for Type {
    fn eq(&self, other: &Type) -> (r: bool) {
        type_eq(self, other)
    }
}

impl vstd::std_specs::cmp::PartialEqSpecImpl for Type {
    open spec fn obeys_eq_spec() -> bool {
        true
    }

    open spec fn eq_spec(&self, other: &Type) -> bool {
        self@ == other@
    }
}

impl Clone for Type {
    fn clone(&self) -> (r: Self)
        ensures
            r@ == self@,
        decreases *self,
    {
        match self {
            Type::Other { schema, name } => Type::Other {
                schema: schema.clone(),
                name: name.clone(),
            },
            Type::Bool => Type::Bool,
            Type::Uuid => Type::Uuid,
            Type::Text => Type::Text,
            Type::VarChar => Type::VarChar,
            Type::BpChar => Type::BpChar,
            Type::Bytea => Type::Bytea,
            Type::Int2 => Type::Int2,
            Type::Int4 => Type::Int4,
            Type::Int8 => Type::Int8,
            Type::Serial2 => Type::Serial2,
            Type::Serial4 => Type::Serial4,
            Type::Serial8 => Type::Serial8,
            Type::Decimal => Type::Decimal,
            Type::Numeric => Type::Numeric,
            Type::Money => Type::Money,
            Type::Float4 => Type::Float4,
            Type::Float8 => Type::Float8,
            Type::Timestamp => Type::Timestamp,
            Type::Date => Type::Date,
            Type::Time => Type::Time,
            Type::TimestampTz => Type::TimestampTz,
            Type::DateTz => Type::DateTz,
            Type::TimeTz => Type::TimeTz,
            Type::Range => Type::Range,
            Type::Interval => Type::Interval,
            Type::Int4Range => Type::Int4Range,
            Type::Int8Range => Type::Int8Range,
            Type::NumRange => Type::NumRange,
            Type::TsRange => Type::TsRange,
            Type::TsTzRange => Type::TsTzRange,
            Type::DateRange => Type::DateRange,
            Type::DateMultiRange => Type::DateMultiRange,
            Type::Int4MultiRange => Type::Int4MultiRange,
            Type::Int8MultiRange => Type::Int8MultiRange,
            Type::NumMultiRange => Type::NumMultiRange,
            Type::TsMultiRange => Type::TsMultiRange,
            Type::TsTzMultiRange => Type::TsTzMultiRange,
            Type::Point => Type::Point,
            Type::Line => Type::Line,
            Type::LSeg => Type::LSeg,
            Type::Box => Type::Box,
            Type::Path => Type::Path,
            Type::Polygon => Type::Polygon,
            Type::Circle => Type::Circle,
            Type::Nullable(inner) => Type::Nullable(Box::new((**inner).clone())),
            Type::Array { elem, dim } => Type::Array {
                elem: Box::new((**elem).clone()),
                dim: *dim,
            },
            Type::UserDefined { modpath, name } => Type::UserDefined {
                modpath: crate::strutil::clone_strings(modpath),
                name: name.clone(),
            },
            Type::Cid => Type::Cid,
            Type::Cidr => Type::Cidr,
            Type::Inet => Type::Inet,
            Type::MacAddr => Type::MacAddr,
            Type::MacAddr8 => Type::MacAddr8,
            Type::Bit => Type::Bit,
            Type::BitVarying => Type::BitVarying,
            Type::TsVector => Type::TsVector,
            Type::TsQuery => Type::TsQuery,
            Type::Xml => Type::Xml,
            Type::Json => Type::Json,
            Type::Jsonb => Type::Jsonb,
            Type::JsonPath => Type::JsonPath,
            Type::Any => Type::Any,
            Type::AnyArray => Type::AnyArray,
            Type::AnyElement => Type::AnyElement,
            Type::AnyNonArray => Type::AnyNonArray,
            Type::AnyEnum => Type::AnyEnum,
            Type::AnyRange => Type::AnyRange,
            Type::AnyMultiRange => Type::AnyMultiRange,
            Type::AnyCompatible => Type::AnyCompatible,
            Type::AnyCompatibleArray => Type::AnyCompatibleArray,
            Type::AnyCompatibleMultiRange => Type::AnyCompatibleMultiRange,
            Type::AnyCompatibleNonArray => Type::AnyCompatibleNonArray,
            Type::AnycompatibleRange => Type::AnycompatibleRange,
            Type::Cstring => Type::Cstring,
            Type::Record => Type::Record,
            Type::Void => Type::Void,
            Type::Unknown => Type::Unknown,
        }
    }
}

/// `s` with every repeated element removed; the first occurrence keeps its
/// position.
pub open spec fn spec_dedup(s: Seq<TypeV>) -> Seq<TypeV>
    decreases s.len(),
{
    if s.len() == 0 {
        Seq::empty()
    } else {
        let prefix = spec_dedup(s.drop_last());
        if prefix.contains(s.last()) {
            prefix
        } else {
            prefix.push(s.last())
        }
    }
}

/// The views of the types held by `v`.
pub open spec fn type_views(v: Seq<Type>) -> Seq<TypeV> {
    v.map_values(|t: Type| t@)
}

/// Whether `v` holds a type whose view is `t@`.
pub fn contains_type(v: &Vec<Type>, t: &Type) -> (r: bool)
    ensures
        r == type_views(v@).contains(t@),
{
    let mut i: usize = 0;
    while i < v.len()
        invariant
            i <= v@.len(),
            forall|j: int| 0 <= j < i ==> type_views(v@)[j] != t@,
        decreases v@.len() - i,
    {
        proof {
            assert(type_views(v@)[i as int] == v@[i as int]@);
        }
        if type_eq(&v[i], t) {
            proof {
                assert(type_views(v@)[i as int] == t@);
            }
            return true;
        }
        i = i + 1;
    }
    proof {
        if type_views(v@).contains(t@) {
            let w = choose|w: int| 0 <= w < type_views(v@).len() && type_views(v@)[w] == t@;
            assert(type_views(v@)[w] != t@);
        }
    }
    false
}

/// Removes repeated types from `v`, keeping first occurrences in order.
pub fn dedup_types(v: Vec<Type>) -> (r: Vec<Type>)
    ensures
        type_views(r@) == spec_dedup(type_views(v@)),
{
    let mut out: Vec<Type> = Vec::new();
    let mut i: usize = 0;
    proof {
        assert(type_views(v@).take(0) =~= Seq::<TypeV>::empty());
        assert(type_views(out@) =~= spec_dedup(type_views(v@).take(0)));
    }
    while i < v.len()
        invariant
            i <= v@.len(),
            type_views(out@) == spec_dedup(type_views(v@).take(i as int)),
        decreases v@.len() - i,
    {
        proof {
            assert(type_views(v@).take(i + 1).drop_last() =~= type_views(v@).take(i as int));
            assert(type_views(v@).take(i + 1).last() == v@[i as int]@);
        }
        if !contains_type(&out, &v[i]) {
            out.push(v[i].clone());
            proof {
                assert(type_views(out@) =~= spec_dedup(type_views(v@).take(i + 1)));
            }
        } else {
            proof {
                assert(type_views(out@) =~= spec_dedup(type_views(v@).take(i + 1)));
            }
        }
        i = i + 1;
    }
    proof {
        assert(type_views(v@).take(v@.len() as int) =~= type_views(v@));
    }
    out
}

} // verus!

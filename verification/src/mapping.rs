//! The per-target-language type mapping: each canonical type is projected
//! onto concrete language syntax. Wrapping cases resolve the inner type
//! once and rewrite only the annotation; a reference into the same module
//! elides the module qualifier.

use vstd::prelude::*;

use crate::langtype::{lt_base, LangTypeV, LanguageType};
use crate::strutil::vec_str_eq;
use crate::ty::{Type, TypeV};
use crate::utils::{camel_of, pascal_of, to_camel_case, to_pascal_case};

verus! {

/// The segments of a module path joined with dots.
pub open spec fn spec_join_dot(segs: Seq<Seq<char>>) -> Seq<char>
    decreases segs.len(),
{
    if segs.len() == 0 {
        Seq::empty()
    } else if segs.len() == 1 {
        segs[0]
    } else {
        spec_join_dot(segs.drop_last()) + "."@ + segs.last()
    }
}

/// Joins module path segments with dots.
pub fn join_dot(segs: &Vec<String>) -> (r: String)
    ensures
        r@ == spec_join_dot(segs.deep_view()),
{
    let mut r = String::new();
    let mut i: usize = 0;
    proof {
        assert(segs.deep_view().take(0) =~= Seq::<Seq<char>>::empty());
    }
    while i < segs.len()
        invariant
            i <= segs@.len(),
            segs.deep_view().len() == segs@.len(),
            r@ == spec_join_dot(segs.deep_view().take(i as int)),
        decreases segs@.len() - i,
    {
        proof {
            assert(segs.deep_view().take(i + 1).drop_last() =~= segs.deep_view().take(i as int));
            assert(segs.deep_view().take(i + 1).last() == segs.deep_view()[i as int]);
            assert(segs.deep_view()[i as int] == segs@[i as int]@);
        }
        if i > 0 {
            r.append(".");
        }
        r.append(segs[i].as_str());
        proof {
            if i == 0 {
                assert(r@ =~= spec_join_dot(segs.deep_view().take(1)));
            }
        }
        i = i + 1;
    }
    proof {
        assert(segs.deep_view().take(segs@.len() as int) =~= segs.deep_view());
    }
    r
}

/// `a` wrapped in the list spelling `d` times.
pub open spec fn wrap_list(a: Seq<char>, d: int) -> Seq<char>
    decreases d,
{
    if d <= 0 {
        a
    } else {
        "list["@ + wrap_list(a, d - 1) + "]"@
    }
}

/// `a` wrapped in the array spelling `d` times.
pub open spec fn wrap_array(a: Seq<char>, d: int) -> Seq<char>
    decreases d,
{
    if d <= 0 {
        a
    } else {
        "Array<"@ + wrap_array(a, d - 1) + ">"@
    }
}

/// The asyncpg projection of a canonical type, resolved from the module at
/// `module`.
pub open spec fn asyncpg_v(module: Seq<Seq<char>>, t: TypeV) -> LangTypeV
    decreases t,
{
    match t {
        TypeV::UserDefined { modpath, name } => {
            let m = spec_join_dot(modpath);
            LangTypeV {
                name: Some(name),
                annotation: if modpath == module {
                    name
                } else {
                    m + "."@ + name
                },
                import: seq!["import "@ + m],
                module: Some(m),
            }
        },
        TypeV::Nullable(inner) => {
            let r = asyncpg_v(module, *inner);
            LangTypeV { annotation: r.annotation + " | None"@, ..r }
        },
        TypeV::Array { elem, dim } => {
            let r = asyncpg_v(module, *elem);
            LangTypeV { name: None, annotation: wrap_list(r.annotation, dim), ..r }
        },
        TypeV::AnyArray | TypeV::AnyCompatibleArray => lt_base("list"@),
        TypeV::Void => lt_base("None"@),
        TypeV::Bool => lt_base("bool"@),
        TypeV::Bytea => lt_base("bytes"@),
        TypeV::Cidr => LangTypeV { import: seq!["import ipaddress"@], ..lt_base("ipaddress.IPv4Network | ipaddress.IPv6Network"@) },
        TypeV::Inet => LangTypeV { import: seq!["import ipaddress"@], ..lt_base("ipaddress.IPv4Interface | ipaddress.IPv6Interface"@) },
        TypeV::Date | TypeV::DateTz => LangTypeV { import: seq!["import datetime"@], ..lt_base("datetime.date"@) },
        TypeV::Time | TypeV::TimeTz => LangTypeV { import: seq!["import datetime"@], ..lt_base("datetime.time"@) },
        TypeV::Timestamp | TypeV::TimestampTz => LangTypeV { import: seq!["import datetime"@], ..lt_base("datetime.datetime"@) },
        TypeV::Interval => LangTypeV { import: seq!["import datetime"@], ..lt_base("datetime.timedelta"@) },
        TypeV::Float4 | TypeV::Float8 => lt_base("float"@),
        TypeV::Uuid => LangTypeV { import: seq!["import uuid"@], ..lt_base("uuid.UUID"@) },
        TypeV::Record => LangTypeV { import: seq!["import asyncpg"@], ..lt_base("asyncpg.Record"@) },
        TypeV::Bit | TypeV::BitVarying => LangTypeV { import: seq!["import asyncpg"@], ..lt_base("asyncpg.BitString"@) },
        TypeV::Box => LangTypeV { import: seq!["import asyncpg"@], ..lt_base("asyncpg.Box"@) },
        TypeV::Int4Range | TypeV::Int8Range => LangTypeV { import: seq!["import asyncpg"@], ..lt_base("asyncpg.Range[int]"@) },
        TypeV::NumRange => LangTypeV { import: seq!["import asyncpg"@, "import decimal"@], ..lt_base("asyncpg.Range[decimal.Decimal]"@) },
        TypeV::Int4MultiRange | TypeV::Int8MultiRange => LangTypeV { import: seq!["import asyncpg"@], ..lt_base("list[asyncpg.Range[int]]"@) },
        TypeV::NumMultiRange => LangTypeV { import: seq!["import asyncpg"@, "import decimal"@], ..lt_base("list[asyncpg.Range[decimal.Decimal]]"@) },
        TypeV::Circle => LangTypeV { import: seq!["import asyncpg"@], ..lt_base("asyncpg.Circle"@) },
        TypeV::Line => LangTypeV { import: seq!["import asyncpg"@], ..lt_base("asyncpg.Line"@) },
        TypeV::LSeg => LangTypeV { import: seq!["import asyncpg"@], ..lt_base("asyncpg.LineSegment"@) },
        TypeV::Path => LangTypeV { import: seq!["import asyncpg"@], ..lt_base("asyncpg.Path"@) },
        TypeV::Point => LangTypeV { import: seq!["import asyncpg"@], ..lt_base("asyncpg.Point"@) },
        TypeV::Polygon => LangTypeV { import: seq!["import asyncpg"@], ..lt_base("asyncpg.Polygon"@) },
        TypeV::AnyRange | TypeV::TsRange | TypeV::TsTzRange | TypeV::DateRange | TypeV::AnycompatibleRange | TypeV::Range => LangTypeV { import: seq!["import asyncpg"@], ..lt_base("asyncpg.Range"@) },
        TypeV::AnyMultiRange | TypeV::AnyCompatibleMultiRange | TypeV::TsMultiRange | TypeV::TsTzMultiRange | TypeV::DateMultiRange => LangTypeV { import: seq!["import asyncpg"@], ..lt_base("list[asyncpg.Range]"@) },
        TypeV::Any | TypeV::Unknown | TypeV::AnyElement | TypeV::AnyNonArray | TypeV::AnyCompatibleNonArray | TypeV::AnyCompatible => LangTypeV { import: seq!["import typing"@], ..lt_base("typing.Any"@) },
        TypeV::BpChar | TypeV::VarChar | TypeV::Text | TypeV::Xml | TypeV::Json | TypeV::Jsonb | TypeV::Cstring | TypeV::Money | TypeV::AnyEnum | TypeV::JsonPath | TypeV::Cid | TypeV::MacAddr | TypeV::MacAddr8 | TypeV::TsVector | TypeV::TsQuery | TypeV::Other { .. } => lt_base("str"@),
        TypeV::Int2 | TypeV::Int4 | TypeV::Int8 | TypeV::Serial2 | TypeV::Serial4 | TypeV::Serial8 => lt_base("int"@),
        TypeV::Numeric | TypeV::Decimal => LangTypeV { import: seq!["import decimal"@], ..lt_base("decimal.Decimal"@) },
    }
}

/// The psycopg projection; range types differ from asyncpg, everything
/// else delegates to it.
pub open spec fn psycopg_v(module: Seq<Seq<char>>, t: TypeV) -> LangTypeV {
    match t {
        TypeV::Bit | TypeV::BitVarying | TypeV::Record | TypeV::Line | TypeV::LSeg | TypeV::Point | TypeV::Path | TypeV::Polygon | TypeV::Circle | TypeV::Box => lt_base("str"@),
        TypeV::AnyMultiRange | TypeV::AnyCompatibleMultiRange => LangTypeV { import: seq!["import psycopg.types.range"@], ..lt_base("list[psycopg.types.range.Range]"@) },
        TypeV::TsMultiRange | TypeV::TsTzMultiRange => LangTypeV { import: seq!["import psycopg.types.range"@, "import datetime"@], ..lt_base("list[psycopg.types.range.Range[datetime.datetime]]"@) },
        TypeV::DateMultiRange => LangTypeV { import: seq!["import psycopg.types.range"@, "import datetime"@], ..lt_base("list[psycopg.types.range.Range[datetime.date]]"@) },
        TypeV::DateRange => LangTypeV { import: seq!["import psycopg.types.range"@, "import datetime"@], ..lt_base("psycopg.types.range.Range[datetime.date]"@) },
        TypeV::TsRange | TypeV::TsTzRange => LangTypeV { import: seq!["import psycopg.types.range"@, "import datetime"@], ..lt_base("psycopg.types.range.Range[datetime.datetime]"@) },
        TypeV::NumMultiRange => LangTypeV { import: seq!["import psycopg.types.range"@, "import decimal"@], ..lt_base("list[psycopg.types.range.Range[decimal.Decimal]]"@) },
        TypeV::Int4Range | TypeV::Int8Range => LangTypeV { import: seq!["import psycopg.types.range"@], ..lt_base("psycopg.types.range.Range[int]"@) },
        TypeV::Range | TypeV::AnyRange | TypeV::AnycompatibleRange => LangTypeV { import: seq!["import psycopg.types.range"@], ..lt_base("psycopg.types.range.Range"@) },
        TypeV::NumRange => LangTypeV { import: seq!["import psycopg.types.range"@, "import decimal"@], ..lt_base("psycopg.types.range.Range[decimal.Decimal]"@) },
        TypeV::Int4MultiRange | TypeV::Int8MultiRange => LangTypeV { import: seq!["import psycopg.types.range"@], ..lt_base("list[psycopg.types.range.Range[int]]"@) },
        _ => asyncpg_v(module, t),
    }
}

/// The typescript projection of a canonical type.
pub open spec fn typescript_v(module: Seq<Seq<char>>, t: TypeV) -> LangTypeV
    decreases t,
{
    match t {
        TypeV::Any | TypeV::AnyCompatibleNonArray | TypeV::AnyCompatible => lt_base("any"@),
        TypeV::Int8 => lt_base("bigint"@),
        TypeV::AnyArray | TypeV::AnyCompatibleArray => lt_base("Array<any>"@),
        TypeV::Json => lt_base("any"@),
        TypeV::Bool => LangTypeV { name: Some("boolean"@), ..lt_base("boolean"@) },
        TypeV::Bytea => LangTypeV { name: Some("Buffer"@), ..lt_base("Buffer"@) },
        TypeV::Int2 | TypeV::Int4 | TypeV::Float4 | TypeV::Float8 => LangTypeV { name: Some("Date"@), ..lt_base("number"@) },
        TypeV::Date | TypeV::DateTz | TypeV::Timestamp | TypeV::TimestampTz => LangTypeV { name: Some("Date"@), ..lt_base("Date"@) },
        TypeV::UserDefined { modpath, name } => {
            let n = pascal_of(name);
            let m = spec_join_dot(modpath);
            LangTypeV {
                name: Some(n),
                annotation: if modpath == module {
                    n
                } else {
                    m + "."@ + n
                },
                import: Seq::empty(),
                module: Some(m),
            }
        },
        TypeV::Nullable(inner) => {
            let r = typescript_v(module, *inner);
            LangTypeV { annotation: r.annotation + " | null"@, ..r }
        },
        TypeV::Array { elem, dim } => {
            let r = typescript_v(module, *elem);
            LangTypeV { name: None, annotation: wrap_array(r.annotation, dim), ..r }
        },
        _ => LangTypeV { name: Some("string"@), ..lt_base("string"@) },
    }
}

/// Whether a typescript column value needs a runtime parser.
pub open spec fn spec_requires_parser(t: TypeV) -> bool {
    t is Int8 || t is Serial8 || t is UserDefined || t is Array
}

/// The array wrapping of a runtime parser expression.
pub open spec fn ts_parser_array(inner: Seq<char>, d: int) -> Seq<char>
    decreases d,
{
    if d <= 1 {
        "new ArrayParser("@ + inner + ")"@
    } else {
        ts_parser_array(inner, d - 1) + ".arrayOfThis()"@
    }
}

/// The runtime value parser that decodes a wire value of type `t`.
pub open spec fn ts_parser(t: TypeV) -> Seq<char>
    decreases t,
{
    match t {
        TypeV::Nullable(inner) => "new NullParser("@ + ts_parser(*inner) + ")"@,
        TypeV::UserDefined { modpath, name } => {
            let seg = if modpath.len() >= 2 {
                modpath[1]
            } else {
                Seq::empty()
            };
            "parser."@ + seg + "."@ + camel_of(name) + "()"@
        },
        TypeV::Array { elem, dim } => ts_parser_array(ts_parser(*elem), dim),
        TypeV::Bool => "new BooleanParser()"@,
        TypeV::Date | TypeV::DateTz | TypeV::Timestamp | TypeV::TimestampTz => "new DateParser()"@,
        TypeV::Int8 => "new BigIntParser()"@,
        TypeV::Float4 | TypeV::Float8 | TypeV::Int2 | TypeV::Int4 => "new NumberParser()"@,
        TypeV::Bytea => "new BufferParser()"@,
        TypeV::Json => "new JsonParser()"@,
        _ => "new StringParser()"@,
    }
}

/// The pluggable projection from canonical types to language types.
pub trait TypeMapService {
    fn get(&self, module: &Vec<String>, ty: &Type) -> LanguageType;
}

pub struct AsyncpgTypeMapService;

pub struct PsycopgTypeMapService;

pub struct TypescriptTypeMapService;

impl AsyncpgTypeMapService {
    /// Projects one canonical type onto asyncpg-flavoured Python.
    pub fn get(&self, module: &Vec<String>, ty: &Type) -> (r: LanguageType)
        ensures
            r@ == asyncpg_v(module.deep_view(), ty@),
        decreases *ty,
    {
        match ty {
            Type::UserDefined { modpath, name } => {
                let m = join_dot(modpath);
                let mut imp = String::from_str("import ");
                imp.append(m.as_str());
                let annotation = if vec_str_eq(modpath, module) {
                    name.clone()
                } else {
                    let mut a = m.clone();
                    a.append(".");
                    a.append(name.as_str());
                    a
                };
                let mut import: Vec<String> = Vec::new();
                import.push(imp);
                let r = LanguageType {
                    name: Some(name.clone()),
                    annotation,
                    import,
                    module: Some(m),
                };
                proof {
                    assert(r@.import =~= (asyncpg_v(module.deep_view(), ty@)).import);
                }
                r
            },
            Type::Nullable(inner) => {
                let r = self.get(module, inner);
                let mut a = r.annotation;
                a.append(" | None");
                LanguageType { annotation: a, name: r.name, import: r.import, module: r.module }
            },
            Type::Array { elem, dim } => {
                let r = self.get(module, elem);
                let mut a = r.annotation;
                let mut d: i64 = 0;
                while d < *dim
                    invariant
                        0 <= d,
                        d <= if dim < 0 { 0i64 } else { *dim },
                        a@ == wrap_list((asyncpg_v(module.deep_view(), elem@)).annotation, d as int),
                    decreases *dim - d,
                {
                    let mut na = String::from_str("list[");
                    na.append(a.as_str());
                    na.append("]");
                    a = na;
                    d = d + 1;
                }
                LanguageType { name: None, annotation: a, import: r.import, module: r.module }
            },
            Type::AnyArray | Type::AnyCompatibleArray => LanguageType::annotation("list"),
            Type::Void => LanguageType::annotation("None"),
            Type::Bool => LanguageType::annotation("bool"),
            Type::Bytea => LanguageType::annotation("bytes"),
            Type::Cidr => LanguageType::annotation("ipaddress.IPv4Network | ipaddress.IPv6Network").import1("import ipaddress"),
            Type::Inet => LanguageType::annotation("ipaddress.IPv4Interface | ipaddress.IPv6Interface").import1("import ipaddress"),
            Type::Date | Type::DateTz => LanguageType::annotation("datetime.date").import1("import datetime"),
            Type::Time | Type::TimeTz => LanguageType::annotation("datetime.time").import1("import datetime"),
            Type::Timestamp | Type::TimestampTz => LanguageType::annotation("datetime.datetime").import1("import datetime"),
            Type::Interval => LanguageType::annotation("datetime.timedelta").import1("import datetime"),
            Type::Float4 | Type::Float8 => LanguageType::annotation("float"),
            Type::Uuid => LanguageType::annotation("uuid.UUID").import1("import uuid"),
            Type::Record => LanguageType::annotation("asyncpg.Record").import1("import asyncpg"),
            Type::Bit | Type::BitVarying => LanguageType::annotation("asyncpg.BitString").import1("import asyncpg"),
            Type::Box => LanguageType::annotation("asyncpg.Box").import1("import asyncpg"),
            Type::Int4Range | Type::Int8Range => LanguageType::annotation("asyncpg.Range[int]").import1("import asyncpg"),
            Type::NumRange => LanguageType::annotation("asyncpg.Range[decimal.Decimal]").import2("import asyncpg", "import decimal"),
            Type::Int4MultiRange | Type::Int8MultiRange => LanguageType::annotation("list[asyncpg.Range[int]]").import1("import asyncpg"),
            Type::NumMultiRange => LanguageType::annotation("list[asyncpg.Range[decimal.Decimal]]").import2("import asyncpg", "import decimal"),
            Type::Circle => LanguageType::annotation("asyncpg.Circle").import1("import asyncpg"),
            Type::Line => LanguageType::annotation("asyncpg.Line").import1("import asyncpg"),
            Type::LSeg => LanguageType::annotation("asyncpg.LineSegment").import1("import asyncpg"),
            Type::Path => LanguageType::annotation("asyncpg.Path").import1("import asyncpg"),
            Type::Point => LanguageType::annotation("asyncpg.Point").import1("import asyncpg"),
            Type::Polygon => LanguageType::annotation("asyncpg.Polygon").import1("import asyncpg"),
            Type::AnyRange | Type::TsRange | Type::TsTzRange | Type::DateRange | Type::AnycompatibleRange | Type::Range => LanguageType::annotation("asyncpg.Range").import1("import asyncpg"),
            Type::AnyMultiRange | Type::AnyCompatibleMultiRange | Type::TsMultiRange | Type::TsTzMultiRange | Type::DateMultiRange => LanguageType::annotation("list[asyncpg.Range]").import1("import asyncpg"),
            Type::Any | Type::Unknown | Type::AnyElement | Type::AnyNonArray | Type::AnyCompatibleNonArray | Type::AnyCompatible => LanguageType::annotation("typing.Any").import1("import typing"),
            Type::BpChar | Type::VarChar | Type::Text | Type::Xml | Type::Json | Type::Jsonb | Type::Cstring | Type::Money | Type::AnyEnum | Type::JsonPath | Type::Cid | Type::MacAddr | Type::MacAddr8 | Type::TsVector | Type::TsQuery | Type::Other { .. } => LanguageType::annotation("str"),
            Type::Int2 | Type::Int4 | Type::Int8 | Type::Serial2 | Type::Serial4 | Type::Serial8 => LanguageType::annotation("int"),
            Type::Numeric | Type::Decimal => LanguageType::annotation("decimal.Decimal").import1("import decimal"),
        }
    }
}

impl PsycopgTypeMapService {
    /// Projects one canonical type onto psycopg-flavoured Python.
    pub fn get(&self, module: &Vec<String>, ty: &Type) -> (r: LanguageType)
        ensures
            r@ == psycopg_v(module.deep_view(), ty@),
    {
        match ty {
            Type::Bit | Type::BitVarying | Type::Record | Type::Line | Type::LSeg | Type::Point | Type::Path | Type::Polygon | Type::Circle | Type::Box => LanguageType::annotation("str"),
            Type::AnyMultiRange | Type::AnyCompatibleMultiRange => LanguageType::annotation("list[psycopg.types.range.Range]").import1("import psycopg.types.range"),
            Type::TsMultiRange | Type::TsTzMultiRange => LanguageType::annotation("list[psycopg.types.range.Range[datetime.datetime]]").import2("import psycopg.types.range", "import datetime"),
            Type::DateMultiRange => LanguageType::annotation("list[psycopg.types.range.Range[datetime.date]]").import2("import psycopg.types.range", "import datetime"),
            Type::DateRange => LanguageType::annotation("psycopg.types.range.Range[datetime.date]").import2("import psycopg.types.range", "import datetime"),
            Type::TsRange | Type::TsTzRange => LanguageType::annotation("psycopg.types.range.Range[datetime.datetime]").import2("import psycopg.types.range", "import datetime"),
            Type::NumMultiRange => LanguageType::annotation("list[psycopg.types.range.Range[decimal.Decimal]]").import2("import psycopg.types.range", "import decimal"),
            Type::Int4Range | Type::Int8Range => LanguageType::annotation("psycopg.types.range.Range[int]").import1("import psycopg.types.range"),
            Type::Range | Type::AnyRange | Type::AnycompatibleRange => LanguageType::annotation("psycopg.types.range.Range").import1("import psycopg.types.range"),
            Type::NumRange => LanguageType::annotation("psycopg.types.range.Range[decimal.Decimal]").import2("import psycopg.types.range", "import decimal"),
            Type::Int4MultiRange | Type::Int8MultiRange => LanguageType::annotation("list[psycopg.types.range.Range[int]]").import1("import psycopg.types.range"),
            _ => AsyncpgTypeMapService.get(module, ty),
        }
    }
}

impl TypescriptTypeMapService {
    /// Whether a column of type `ty` needs a runtime parser.
    pub fn column_requires_parser(&self, ty: &Type) -> (r: bool)
        ensures
            r == spec_requires_parser(ty@),
    {
        match ty {
            Type::Int8 | Type::Serial8 | Type::UserDefined { .. } | Type::Array { .. } => true,
            _ => false,
        }
    }

    /// The runtime parser expression that decodes a value of type `ty`.
    pub fn type_parser(&self, ty: &Type) -> (r: String)
        ensures
            r@ == ts_parser(ty@),
        decreases *ty,
    {
        match ty {
            Type::Nullable(inner) => {
                let mut a = String::from_str("new NullParser(");
                let p = self.type_parser(inner);
                a.append(p.as_str());
                a.append(")");
                a
            },
            Type::UserDefined { modpath, name } => {
                let mut a = String::from_str("parser.");
                if modpath.len() >= 2 {
                    a.append(modpath[1].as_str());
                    proof {
                        assert(modpath.deep_view()[1] == modpath@[1]@);
                    }
                }
                a.append(".");
                let c = to_camel_case(name.as_str());
                a.append(c.as_str());
                a.append("()");
                a
            },
            Type::Array { elem, dim } => {
                let p = self.type_parser(elem);
                let mut a = String::from_str("new ArrayParser(");
                a.append(p.as_str());
                a.append(")");
                let mut d: i64 = 1;
                while d < *dim
                    invariant
                        1 <= d,
                        d <= if dim < 1 { 1i64 } else { *dim },
                        a@ == ts_parser_array(ts_parser(elem@), d as int),
                    decreases *dim - d,
                {
                    a.append(".arrayOfThis()");
                    d = d + 1;
                }
                a
            },
            Type::Bool => String::from_str("new BooleanParser()"),
            Type::Date | Type::DateTz | Type::Timestamp | Type::TimestampTz => String::from_str(
                "new DateParser()",
            ),
            Type::Int8 => String::from_str("new BigIntParser()"),
            Type::Float4 | Type::Float8 | Type::Int2 | Type::Int4 => String::from_str(
                "new NumberParser()",
            ),
            Type::Bytea => String::from_str("new BufferParser()"),
            Type::Json => String::from_str("new JsonParser()"),
            _ => String::from_str("new StringParser()"),
        }
    }

    /// Projects one canonical type onto typescript.
    pub fn get(&self, module: &Vec<String>, ty: &Type) -> (r: LanguageType)
        ensures
            r@ == typescript_v(module.deep_view(), ty@),
        decreases *ty,
    {
        match ty {
            Type::Any | Type::AnyCompatibleNonArray | Type::AnyCompatible => LanguageType::annotation("any"),
            Type::Int8 => LanguageType::annotation("bigint"),
            Type::AnyArray | Type::AnyCompatibleArray => LanguageType::annotation("Array<any>"),
            Type::Json => LanguageType::annotation("any"),
            Type::Bool => LanguageType::annotation("boolean").name("boolean"),
            Type::Bytea => LanguageType::annotation("Buffer").name("Buffer"),
            Type::Int2 | Type::Int4 | Type::Float4 | Type::Float8 => LanguageType::annotation("number").name("Date"),
            Type::Date | Type::DateTz | Type::Timestamp | Type::TimestampTz => LanguageType::annotation("Date").name("Date"),
            Type::UserDefined { modpath, name } => {
                let n = to_pascal_case(name.as_str());
                let m = join_dot(modpath);
                let annotation = if vec_str_eq(modpath, module) {
                    n.clone()
                } else {
                    let mut a = m.clone();
                    a.append(".");
                    a.append(n.as_str());
                    a
                };
                let r = LanguageType {
                    name: Some(n),
                    annotation,
                    import: Vec::new(),
                    module: Some(m),
                };
                proof {
                    assert(r@.import =~= Seq::<Seq<char>>::empty());
                }
                r
            },
            Type::Nullable(inner) => {
                let r = self.get(module, inner);
                let mut a = r.annotation;
                a.append(" | null");
                LanguageType { annotation: a, name: r.name, import: r.import, module: r.module }
            },
            Type::Array { elem, dim } => {
                let r = self.get(module, elem);
                let mut a = r.annotation;
                let mut d: i64 = 0;
                while d < *dim
                    invariant
                        0 <= d,
                        d <= if dim < 0 { 0i64 } else { *dim },
                        a@ == wrap_array((typescript_v(module.deep_view(), elem@)).annotation, d as int),
                    decreases *dim - d,
                {
                    let mut na = String::from_str("Array<");
                    na.append(a.as_str());
                    na.append(">");
                    a = na;
                    d = d + 1;
                }
                LanguageType { name: None, annotation: a, import: r.import, module: r.module }
            },
            _ => LanguageType::annotation("string").name("string"),
        }
    }
}

impl TypeMapService for AsyncpgTypeMapService {
    fn get(&self, module: &Vec<String>, ty: &Type) -> LanguageType {
        AsyncpgTypeMapService::get(self, module, ty)
    }
}

impl TypeMapService for PsycopgTypeMapService {
    fn get(&self, module: &Vec<String>, ty: &Type) -> LanguageType {
        PsycopgTypeMapService::get(self, module, ty)
    }
}

impl TypeMapService for TypescriptTypeMapService {
    fn get(&self, module: &Vec<String>, ty: &Type) -> LanguageType {
        TypescriptTypeMapService::get(self, module, ty)
    }
}

/// The closed set of supported target mappers; one is picked per run.
pub enum TargetMapper {
    Asyncpg,
    Psycopg,
    Typescript,
}

/// The projection performed by the chosen mapper.
pub open spec fn mapper_v(m: TargetMapper, module: Seq<Seq<char>>, t: TypeV) -> LangTypeV {
    match m {
        TargetMapper::Asyncpg => asyncpg_v(module, t),
        TargetMapper::Psycopg => psycopg_v(module, t),
        TargetMapper::Typescript => typescript_v(module, t),
    }
}

impl TargetMapper {
    /// Projects one canonical type through the chosen mapper.
    pub fn get(&self, module: &Vec<String>, ty: &Type) -> (r: LanguageType)
        ensures
            r@ == mapper_v(*self, module.deep_view(), ty@),
    {
        match self {
            TargetMapper::Asyncpg => AsyncpgTypeMapService.get(module, ty),
            TargetMapper::Psycopg => PsycopgTypeMapService.get(module, ty),
            TargetMapper::Typescript => TypescriptTypeMapService.get(module, ty),
        }
    }
}

} // verus!


//! The built-in name table: the fixed mapping from `pg_catalog` type names
//! to canonical types. Unknown names deliberately fall back to `Any`.
//! `lemma_pg_table_sorted` proves that the table is strictly sorted by name.

use vstd::prelude::*;

use crate::strutil::{lex_lt, lex_lt_from, lemma_lex_lt_trans};
use crate::ty::{Type, TypeV};

verus! {

/// Number of rows in the built-in name table.
pub open spec fn pg_table_len() -> int {
    73
}

/// Row `i` of the built-in name table: a `pg_catalog` type name and the
/// canonical type it denotes.
pub open spec fn pg_row(i: int) -> (Seq<char>, TypeV) {
    if i == 0 {
        ("any"@, TypeV::Any)
    } else if i == 1 {
        ("anyarray"@, TypeV::AnyArray)
    } else if i == 2 {
        ("anycompatible"@, TypeV::AnyCompatible)
    } else if i == 3 {
        ("anycompatiblearray"@, TypeV::AnyCompatibleArray)
    } else if i == 4 {
        ("anycompatiblemultirange"@, TypeV::AnyCompatibleMultiRange)
    } else if i == 5 {
        ("anycompatiblenonarray"@, TypeV::AnyCompatibleNonArray)
    } else if i == 6 {
        ("anycompatiblerange"@, TypeV::AnycompatibleRange)
    } else if i == 7 {
        ("anyelement"@, TypeV::AnyElement)
    } else if i == 8 {
        ("anyenum"@, TypeV::AnyEnum)
    } else if i == 9 {
        ("anymultirange"@, TypeV::AnyMultiRange)
    } else if i == 10 {
        ("anynonarray"@, TypeV::AnyNonArray)
    } else if i == 11 {
        ("anyrange"@, TypeV::AnyRange)
    } else if i == 12 {
        ("bit"@, TypeV::Bit)
    } else if i == 13 {
        ("bitvarying"@, TypeV::BitVarying)
    } else if i == 14 {
        ("bool"@, TypeV::Bool)
    } else if i == 15 {
        ("box"@, TypeV::Box)
    } else if i == 16 {
        ("bpchar"@, TypeV::BpChar)
    } else if i == 17 {
        ("bytea"@, TypeV::Bytea)
    } else if i == 18 {
        ("cid"@, TypeV::Cid)
    } else if i == 19 {
        ("cidr"@, TypeV::Cidr)
    } else if i == 20 {
        ("circle"@, TypeV::Circle)
    } else if i == 21 {
        ("cstring"@, TypeV::Cstring)
    } else if i == 22 {
        ("date"@, TypeV::Date)
    } else if i == 23 {
        ("datemultirange"@, TypeV::DateMultiRange)
    } else if i == 24 {
        ("daterange"@, TypeV::DateRange)
    } else if i == 25 {
        ("datetz"@, TypeV::DateTz)
    } else if i == 26 {
        ("decimal"@, TypeV::Decimal)
    } else if i == 27 {
        ("float4"@, TypeV::Float4)
    } else if i == 28 {
        ("float8"@, TypeV::Float8)
    } else if i == 29 {
        ("inet"@, TypeV::Inet)
    } else if i == 30 {
        ("int2"@, TypeV::Int2)
    } else if i == 31 {
        ("int4"@, TypeV::Int4)
    } else if i == 32 {
        ("int4multirange"@, TypeV::Int4MultiRange)
    } else if i == 33 {
        ("int4range"@, TypeV::Int4Range)
    } else if i == 34 {
        ("int8"@, TypeV::Int8)
    } else if i == 35 {
        ("int8multirange"@, TypeV::Int8MultiRange)
    } else if i == 36 {
        ("int8range"@, TypeV::Int8Range)
    } else if i == 37 {
        ("interval"@, TypeV::Interval)
    } else if i == 38 {
        ("json"@, TypeV::Json)
    } else if i == 39 {
        ("jsonb"@, TypeV::Jsonb)
    } else if i == 40 {
        ("jsonpath"@, TypeV::JsonPath)
    } else if i == 41 {
        ("line"@, TypeV::Line)
    } else if i == 42 {
        ("lseg"@, TypeV::LSeg)
    } else if i == 43 {
        ("macaddr"@, TypeV::MacAddr)
    } else if i == 44 {
        ("macaddr8"@, TypeV::MacAddr8)
    } else if i == 45 {
        ("money"@, TypeV::Money)
    } else if i == 46 {
        ("numeric"@, TypeV::Numeric)
    } else if i == 47 {
        ("nummultirange"@, TypeV::NumMultiRange)
    } else if i == 48 {
        ("numrange"@, TypeV::NumRange)
    } else if i == 49 {
        ("path"@, TypeV::Path)
    } else if i == 50 {
        ("point"@, TypeV::Point)
    } else if i == 51 {
        ("polygon"@, TypeV::Polygon)
    } else if i == 52 {
        ("range"@, TypeV::Range)
    } else if i == 53 {
        ("record"@, TypeV::Record)
    } else if i == 54 {
        ("serial2"@, TypeV::Serial2)
    } else if i == 55 {
        ("serial4"@, TypeV::Serial4)
    } else if i == 56 {
        ("serial8"@, TypeV::Serial8)
    } else if i == 57 {
        ("text"@, TypeV::Text)
    } else if i == 58 {
        ("time"@, TypeV::Time)
    } else if i == 59 {
        ("timestamp"@, TypeV::Timestamp)
    } else if i == 60 {
        ("timestamptz"@, TypeV::TimestampTz)
    } else if i == 61 {
        ("timetz"@, TypeV::TimeTz)
    } else if i == 62 {
        ("tsmultirange"@, TypeV::TsMultiRange)
    } else if i == 63 {
        ("tsquery"@, TypeV::TsQuery)
    } else if i == 64 {
        ("tsrange"@, TypeV::TsRange)
    } else if i == 65 {
        ("tstzmultirange"@, TypeV::TsTzMultiRange)
    } else if i == 66 {
        ("tstzrange"@, TypeV::TsTzRange)
    } else if i == 67 {
        ("tsvector"@, TypeV::TsVector)
    } else if i == 68 {
        ("unknown"@, TypeV::Unknown)
    } else if i == 69 {
        ("uuid"@, TypeV::Uuid)
    } else if i == 70 {
        ("varchar"@, TypeV::VarChar)
    } else if i == 71 {
        ("void"@, TypeV::Void)
    } else if i == 72 {
        ("xml"@, TypeV::Xml)
    } else {
        ("any"@, TypeV::Any)
    }
}

/// The name table as a sequence of rows.
pub open spec fn pg_name_table() -> Seq<(Seq<char>, TypeV)> {
    Seq::new(pg_table_len() as nat, |i: int| pg_row(i))
}

/// Lookup by name over table rows; names not in the table map to `Any`.
pub open spec fn table_lookup(t: Seq<(Seq<char>, TypeV)>, name: Seq<char>) -> TypeV
    decreases t.len(),
{
    if t.len() == 0 {
        TypeV::Any
    } else if t[0].0 == name {
        t[0].1
    } else {
        table_lookup(t.drop_first(), name)
    }
}

/// The canonical type that a `pg_catalog` type name denotes.
pub open spec fn spec_from_pg_catalog(name: Seq<char>) -> TypeV {
    table_lookup(pg_name_table(), name)
}

/// Row `i` of the table as an executable value.
pub(crate) fn pg_row_exec(i: usize) -> (r: (&'static str, Type))
    requires
        i < pg_table_len(),
    ensures
        r.0@ == pg_row(i as int).0,
        r.1@ == pg_row(i as int).1,
{
    if i == 0 {
        ("any", Type::Any)
    } else if i == 1 {
        ("anyarray", Type::AnyArray)
    } else if i == 2 {
        ("anycompatible", Type::AnyCompatible)
    } else if i == 3 {
        ("anycompatiblearray", Type::AnyCompatibleArray)
    } else if i == 4 {
        ("anycompatiblemultirange", Type::AnyCompatibleMultiRange)
    } else if i == 5 {
        ("anycompatiblenonarray", Type::AnyCompatibleNonArray)
    } else if i == 6 {
        ("anycompatiblerange", Type::AnycompatibleRange)
    } else if i == 7 {
        ("anyelement", Type::AnyElement)
    } else if i == 8 {
        ("anyenum", Type::AnyEnum)
    } else if i == 9 {
        ("anymultirange", Type::AnyMultiRange)
    } else if i == 10 {
        ("anynonarray", Type::AnyNonArray)
    } else if i == 11 {
        ("anyrange", Type::AnyRange)
    } else if i == 12 {
        ("bit", Type::Bit)
    } else if i == 13 {
        ("bitvarying", Type::BitVarying)
    } else if i == 14 {
        ("bool", Type::Bool)
    } else if i == 15 {
        ("box", Type::Box)
    } else if i == 16 {
        ("bpchar", Type::BpChar)
    } else if i == 17 {
        ("bytea", Type::Bytea)
    } else if i == 18 {
        ("cid", Type::Cid)
    } else if i == 19 {
        ("cidr", Type::Cidr)
    } else if i == 20 {
        ("circle", Type::Circle)
    } else if i == 21 {
        ("cstring", Type::Cstring)
    } else if i == 22 {
        ("date", Type::Date)
    } else if i == 23 {
        ("datemultirange", Type::DateMultiRange)
    } else if i == 24 {
        ("daterange", Type::DateRange)
    } else if i == 25 {
        ("datetz", Type::DateTz)
    } else if i == 26 {
        ("decimal", Type::Decimal)
    } else if i == 27 {
        ("float4", Type::Float4)
    } else if i == 28 {
        ("float8", Type::Float8)
    } else if i == 29 {
        ("inet", Type::Inet)
    } else if i == 30 {
        ("int2", Type::Int2)
    } else if i == 31 {
        ("int4", Type::Int4)
    } else if i == 32 {
        ("int4multirange", Type::Int4MultiRange)
    } else if i == 33 {
        ("int4range", Type::Int4Range)
    } else if i == 34 {
        ("int8", Type::Int8)
    } else if i == 35 {
        ("int8multirange", Type::Int8MultiRange)
    } else if i == 36 {
        ("int8range", Type::Int8Range)
    } else if i == 37 {
        ("interval", Type::Interval)
    } else if i == 38 {
        ("json", Type::Json)
    } else if i == 39 {
        ("jsonb", Type::Jsonb)
    } else if i == 40 {
        ("jsonpath", Type::JsonPath)
    } else if i == 41 {
        ("line", Type::Line)
    } else if i == 42 {
        ("lseg", Type::LSeg)
    } else if i == 43 {
        ("macaddr", Type::MacAddr)
    } else if i == 44 {
        ("macaddr8", Type::MacAddr8)
    } else if i == 45 {
        ("money", Type::Money)
    } else if i == 46 {
        ("numeric", Type::Numeric)
    } else if i == 47 {
        ("nummultirange", Type::NumMultiRange)
    } else if i == 48 {
        ("numrange", Type::NumRange)
    } else if i == 49 {
        ("path", Type::Path)
    } else if i == 50 {
        ("point", Type::Point)
    } else if i == 51 {
        ("polygon", Type::Polygon)
    } else if i == 52 {
        ("range", Type::Range)
    } else if i == 53 {
        ("record", Type::Record)
    } else if i == 54 {
        ("serial2", Type::Serial2)
    } else if i == 55 {
        ("serial4", Type::Serial4)
    } else if i == 56 {
        ("serial8", Type::Serial8)
    } else if i == 57 {
        ("text", Type::Text)
    } else if i == 58 {
        ("time", Type::Time)
    } else if i == 59 {
        ("timestamp", Type::Timestamp)
    } else if i == 60 {
        ("timestamptz", Type::TimestampTz)
    } else if i == 61 {
        ("timetz", Type::TimeTz)
    } else if i == 62 {
        ("tsmultirange", Type::TsMultiRange)
    } else if i == 63 {
        ("tsquery", Type::TsQuery)
    } else if i == 64 {
        ("tsrange", Type::TsRange)
    } else if i == 65 {
        ("tstzmultirange", Type::TsTzMultiRange)
    } else if i == 66 {
        ("tstzrange", Type::TsTzRange)
    } else if i == 67 {
        ("tsvector", Type::TsVector)
    } else if i == 68 {
        ("unknown", Type::Unknown)
    } else if i == 69 {
        ("uuid", Type::Uuid)
    } else if i == 70 {
        ("varchar", Type::VarChar)
    } else if i == 71 {
        ("void", Type::Void)
    } else if i == 72 {
        ("xml", Type::Xml)
    } else {
        ("any", Type::Any)
    }
}

impl Type {
    /// The built-in name table, one row per `pg_catalog` type name, kept
    /// sorted by name.
    pub fn names() -> (r: Vec<(&'static str, Type)>)
        ensures
            r@.len() == pg_name_table().len(),
            forall|i: int|
                0 <= i < r@.len() ==> (#[trigger] r@[i]).0@ == pg_name_table()[i].0
                    && r@[i].1@ == pg_name_table()[i].1,
    {
        let mut r: Vec<(&'static str, Type)> = Vec::new();
        let mut i: usize = 0;
        while i < 73
            invariant
                i <= pg_table_len(),
                r@.len() == i,
                forall|j: int|
                    0 <= j < i ==> (#[trigger] r@[j]).0@ == pg_name_table()[j].0
                        && r@[j].1@ == pg_name_table()[j].1,
            decreases 73 - i,
        {
            r.push(pg_row_exec(i));
            i = i + 1;
        }
        r
    }
}

proof fn lemma_pg_adjacent_0()
    ensures
        lex_lt(pg_row(0).0, pg_row(1).0),
        lex_lt(pg_row(1).0, pg_row(2).0),
        lex_lt(pg_row(2).0, pg_row(3).0),
        lex_lt(pg_row(3).0, pg_row(4).0),
        lex_lt(pg_row(4).0, pg_row(5).0),
        lex_lt(pg_row(5).0, pg_row(6).0),
        lex_lt(pg_row(6).0, pg_row(7).0),
        lex_lt(pg_row(7).0, pg_row(8).0),
        lex_lt(pg_row(8).0, pg_row(9).0),
{
    assert(lex_lt("any"@, "anyarray"@)) by {
        reveal_strlit("any");
        reveal_strlit("anyarray");
        reveal_with_fuel(lex_lt_from, 30);
    }
    assert(lex_lt("anyarray"@, "anycompatible"@)) by {
        reveal_strlit("anyarray");
        reveal_strlit("anycompatible");
        reveal_with_fuel(lex_lt_from, 30);
    }
    assert(lex_lt("anycompatible"@, "anycompatiblearray"@)) by {
        reveal_strlit("anycompatible");
        reveal_strlit("anycompatiblearray");
        reveal_with_fuel(lex_lt_from, 30);
    }
    assert(lex_lt("anycompatiblearray"@, "anycompatiblemultirange"@)) by {
        reveal_strlit("anycompatiblearray");
        reveal_strlit("anycompatiblemultirange");
        reveal_with_fuel(lex_lt_from, 30);
    }
    assert(lex_lt("anycompatiblemultirange"@, "anycompatiblenonarray"@)) by {
        reveal_strlit("anycompatiblemultirange");
        reveal_strlit("anycompatiblenonarray");
        reveal_with_fuel(lex_lt_from, 30);
    }
    assert(lex_lt("anycompatiblenonarray"@, "anycompatiblerange"@)) by {
        reveal_strlit("anycompatiblenonarray");
        reveal_strlit("anycompatiblerange");
        reveal_with_fuel(lex_lt_from, 30);
    }
    assert(lex_lt("anycompatiblerange"@, "anyelement"@)) by {
        reveal_strlit("anycompatiblerange");
        reveal_strlit("anyelement");
        reveal_with_fuel(lex_lt_from, 30);
    }
    assert(lex_lt("anyelement"@, "anyenum"@)) by {
        reveal_strlit("anyelement");
        reveal_strlit("anyenum");
        reveal_with_fuel(lex_lt_from, 30);
    }
    assert(lex_lt("anyenum"@, "anymultirange"@)) by {
        reveal_strlit("anyenum");
        reveal_strlit("anymultirange");
        reveal_with_fuel(lex_lt_from, 30);
    }
}

proof fn lemma_pg_adjacent_1()
    ensures
        lex_lt(pg_row(9).0, pg_row(10).0),
        lex_lt(pg_row(10).0, pg_row(11).0),
        lex_lt(pg_row(11).0, pg_row(12).0),
        lex_lt(pg_row(12).0, pg_row(13).0),
        lex_lt(pg_row(13).0, pg_row(14).0),
        lex_lt(pg_row(14).0, pg_row(15).0),
        lex_lt(pg_row(15).0, pg_row(16).0),
        lex_lt(pg_row(16).0, pg_row(17).0),
        lex_lt(pg_row(17).0, pg_row(18).0),
{
    assert(lex_lt("anymultirange"@, "anynonarray"@)) by {
        reveal_strlit("anymultirange");
        reveal_strlit("anynonarray");
        reveal_with_fuel(lex_lt_from, 30);
    }
    assert(lex_lt("anynonarray"@, "anyrange"@)) by {
        reveal_strlit("anynonarray");
        reveal_strlit("anyrange");
        reveal_with_fuel(lex_lt_from, 30);
    }
    assert(lex_lt("anyrange"@, "bit"@)) by {
        reveal_strlit("anyrange");
        reveal_strlit("bit");
        reveal_with_fuel(lex_lt_from, 30);
    }
    assert(lex_lt("bit"@, "bitvarying"@)) by {
        reveal_strlit("bit");
        reveal_strlit("bitvarying");
        reveal_with_fuel(lex_lt_from, 30);
    }
    assert(lex_lt("bitvarying"@, "bool"@)) by {
        reveal_strlit("bitvarying");
        reveal_strlit("bool");
        reveal_with_fuel(lex_lt_from, 30);
    }
    assert(lex_lt("bool"@, "box"@)) by {
        reveal_strlit("bool");
        reveal_strlit("box");
        reveal_with_fuel(lex_lt_from, 30);
    }
    assert(lex_lt("box"@, "bpchar"@)) by {
        reveal_strlit("box");
        reveal_strlit("bpchar");
        reveal_with_fuel(lex_lt_from, 30);
    }
    assert(lex_lt("bpchar"@, "bytea"@)) by {
        reveal_strlit("bpchar");
        reveal_strlit("bytea");
        reveal_with_fuel(lex_lt_from, 30);
    }
    assert(lex_lt("bytea"@, "cid"@)) by {
        reveal_strlit("bytea");
        reveal_strlit("cid");
        reveal_with_fuel(lex_lt_from, 30);
    }
}

proof fn lemma_pg_adjacent_2()
    ensures
        lex_lt(pg_row(18).0, pg_row(19).0),
        lex_lt(pg_row(19).0, pg_row(20).0),
        lex_lt(pg_row(20).0, pg_row(21).0),
        lex_lt(pg_row(21).0, pg_row(22).0),
        lex_lt(pg_row(22).0, pg_row(23).0),
        lex_lt(pg_row(23).0, pg_row(24).0),
        lex_lt(pg_row(24).0, pg_row(25).0),
        lex_lt(pg_row(25).0, pg_row(26).0),
        lex_lt(pg_row(26).0, pg_row(27).0),
{
    assert(lex_lt("cid"@, "cidr"@)) by {
        reveal_strlit("cid");
        reveal_strlit("cidr");
        reveal_with_fuel(lex_lt_from, 30);
    }
    assert(lex_lt("cidr"@, "circle"@)) by {
        reveal_strlit("cidr");
        reveal_strlit("circle");
        reveal_with_fuel(lex_lt_from, 30);
    }
    assert(lex_lt("circle"@, "cstring"@)) by {
        reveal_strlit("circle");
        reveal_strlit("cstring");
        reveal_with_fuel(lex_lt_from, 30);
    }
    assert(lex_lt("cstring"@, "date"@)) by {
        reveal_strlit("cstring");
        reveal_strlit("date");
        reveal_with_fuel(lex_lt_from, 30);
    }
    assert(lex_lt("date"@, "datemultirange"@)) by {
        reveal_strlit("date");
        reveal_strlit("datemultirange");
        reveal_with_fuel(lex_lt_from, 30);
    }
    assert(lex_lt("datemultirange"@, "daterange"@)) by {
        reveal_strlit("datemultirange");
        reveal_strlit("daterange");
        reveal_with_fuel(lex_lt_from, 30);
    }
    assert(lex_lt("daterange"@, "datetz"@)) by {
        reveal_strlit("daterange");
        reveal_strlit("datetz");
        reveal_with_fuel(lex_lt_from, 30);
    }
    assert(lex_lt("datetz"@, "decimal"@)) by {
        reveal_strlit("datetz");
        reveal_strlit("decimal");
        reveal_with_fuel(lex_lt_from, 30);
    }
    assert(lex_lt("decimal"@, "float4"@)) by {
        reveal_strlit("decimal");
        reveal_strlit("float4");
        reveal_with_fuel(lex_lt_from, 30);
    }
}

proof fn lemma_pg_adjacent_3()
    ensures
        lex_lt(pg_row(27).0, pg_row(28).0),
        lex_lt(pg_row(28).0, pg_row(29).0),
        lex_lt(pg_row(29).0, pg_row(30).0),
        lex_lt(pg_row(30).0, pg_row(31).0),
        lex_lt(pg_row(31).0, pg_row(32).0),
        lex_lt(pg_row(32).0, pg_row(33).0),
        lex_lt(pg_row(33).0, pg_row(34).0),
        lex_lt(pg_row(34).0, pg_row(35).0),
        lex_lt(pg_row(35).0, pg_row(36).0),
{
    assert(lex_lt("float4"@, "float8"@)) by {
        reveal_strlit("float4");
        reveal_strlit("float8");
        reveal_with_fuel(lex_lt_from, 30);
    }
    assert(lex_lt("float8"@, "inet"@)) by {
        reveal_strlit("float8");
        reveal_strlit("inet");
        reveal_with_fuel(lex_lt_from, 30);
    }
    assert(lex_lt("inet"@, "int2"@)) by {
        reveal_strlit("inet");
        reveal_strlit("int2");
        reveal_with_fuel(lex_lt_from, 30);
    }
    assert(lex_lt("int2"@, "int4"@)) by {
        reveal_strlit("int2");
        reveal_strlit("int4");
        reveal_with_fuel(lex_lt_from, 30);
    }
    assert(lex_lt("int4"@, "int4multirange"@)) by {
        reveal_strlit("int4");
        reveal_strlit("int4multirange");
        reveal_with_fuel(lex_lt_from, 30);
    }
    assert(lex_lt("int4multirange"@, "int4range"@)) by {
        reveal_strlit("int4multirange");
        reveal_strlit("int4range");
        reveal_with_fuel(lex_lt_from, 30);
    }
    assert(lex_lt("int4range"@, "int8"@)) by {
        reveal_strlit("int4range");
        reveal_strlit("int8");
        reveal_with_fuel(lex_lt_from, 30);
    }
    assert(lex_lt("int8"@, "int8multirange"@)) by {
        reveal_strlit("int8");
        reveal_strlit("int8multirange");
        reveal_with_fuel(lex_lt_from, 30);
    }
    assert(lex_lt("int8multirange"@, "int8range"@)) by {
        reveal_strlit("int8multirange");
        reveal_strlit("int8range");
        reveal_with_fuel(lex_lt_from, 30);
    }
}

proof fn lemma_pg_adjacent_4()
    ensures
        lex_lt(pg_row(36).0, pg_row(37).0),
        lex_lt(pg_row(37).0, pg_row(38).0),
        lex_lt(pg_row(38).0, pg_row(39).0),
        lex_lt(pg_row(39).0, pg_row(40).0),
        lex_lt(pg_row(40).0, pg_row(41).0),
        lex_lt(pg_row(41).0, pg_row(42).0),
        lex_lt(pg_row(42).0, pg_row(43).0),
        lex_lt(pg_row(43).0, pg_row(44).0),
        lex_lt(pg_row(44).0, pg_row(45).0),
{
    assert(lex_lt("int8range"@, "interval"@)) by {
        reveal_strlit("int8range");
        reveal_strlit("interval");
        reveal_with_fuel(lex_lt_from, 30);
    }
    assert(lex_lt("interval"@, "json"@)) by {
        reveal_strlit("interval");
        reveal_strlit("json");
        reveal_with_fuel(lex_lt_from, 30);
    }
    assert(lex_lt("json"@, "jsonb"@)) by {
        reveal_strlit("json");
        reveal_strlit("jsonb");
        reveal_with_fuel(lex_lt_from, 30);
    }
    assert(lex_lt("jsonb"@, "jsonpath"@)) by {
        reveal_strlit("jsonb");
        reveal_strlit("jsonpath");
        reveal_with_fuel(lex_lt_from, 30);
    }
    assert(lex_lt("jsonpath"@, "line"@)) by {
        reveal_strlit("jsonpath");
        reveal_strlit("line");
        reveal_with_fuel(lex_lt_from, 30);
    }
    assert(lex_lt("line"@, "lseg"@)) by {
        reveal_strlit("line");
        reveal_strlit("lseg");
        reveal_with_fuel(lex_lt_from, 30);
    }
    assert(lex_lt("lseg"@, "macaddr"@)) by {
        reveal_strlit("lseg");
        reveal_strlit("macaddr");
        reveal_with_fuel(lex_lt_from, 30);
    }
    assert(lex_lt("macaddr"@, "macaddr8"@)) by {
        reveal_strlit("macaddr");
        reveal_strlit("macaddr8");
        reveal_with_fuel(lex_lt_from, 30);
    }
    assert(lex_lt("macaddr8"@, "money"@)) by {
        reveal_strlit("macaddr8");
        reveal_strlit("money");
        reveal_with_fuel(lex_lt_from, 30);
    }
}

proof fn lemma_pg_adjacent_5()
    ensures
        lex_lt(pg_row(45).0, pg_row(46).0),
        lex_lt(pg_row(46).0, pg_row(47).0),
        lex_lt(pg_row(47).0, pg_row(48).0),
        lex_lt(pg_row(48).0, pg_row(49).0),
        lex_lt(pg_row(49).0, pg_row(50).0),
        lex_lt(pg_row(50).0, pg_row(51).0),
        lex_lt(pg_row(51).0, pg_row(52).0),
        lex_lt(pg_row(52).0, pg_row(53).0),
        lex_lt(pg_row(53).0, pg_row(54).0),
{
    assert(lex_lt("money"@, "numeric"@)) by {
        reveal_strlit("money");
        reveal_strlit("numeric");
        reveal_with_fuel(lex_lt_from, 30);
    }
    assert(lex_lt("numeric"@, "nummultirange"@)) by {
        reveal_strlit("numeric");
        reveal_strlit("nummultirange");
        reveal_with_fuel(lex_lt_from, 30);
    }
    assert(lex_lt("nummultirange"@, "numrange"@)) by {
        reveal_strlit("nummultirange");
        reveal_strlit("numrange");
        reveal_with_fuel(lex_lt_from, 30);
    }
    assert(lex_lt("numrange"@, "path"@)) by {
        reveal_strlit("numrange");
        reveal_strlit("path");
        reveal_with_fuel(lex_lt_from, 30);
    }
    assert(lex_lt("path"@, "point"@)) by {
        reveal_strlit("path");
        reveal_strlit("point");
        reveal_with_fuel(lex_lt_from, 30);
    }
    assert(lex_lt("point"@, "polygon"@)) by {
        reveal_strlit("point");
        reveal_strlit("polygon");
        reveal_with_fuel(lex_lt_from, 30);
    }
    assert(lex_lt("polygon"@, "range"@)) by {
        reveal_strlit("polygon");
        reveal_strlit("range");
        reveal_with_fuel(lex_lt_from, 30);
    }
    assert(lex_lt("range"@, "record"@)) by {
        reveal_strlit("range");
        reveal_strlit("record");
        reveal_with_fuel(lex_lt_from, 30);
    }
    assert(lex_lt("record"@, "serial2"@)) by {
        reveal_strlit("record");
        reveal_strlit("serial2");
        reveal_with_fuel(lex_lt_from, 30);
    }
}

proof fn lemma_pg_adjacent_6()
    ensures
        lex_lt(pg_row(54).0, pg_row(55).0),
        lex_lt(pg_row(55).0, pg_row(56).0),
        lex_lt(pg_row(56).0, pg_row(57).0),
        lex_lt(pg_row(57).0, pg_row(58).0),
        lex_lt(pg_row(58).0, pg_row(59).0),
        lex_lt(pg_row(59).0, pg_row(60).0),
        lex_lt(pg_row(60).0, pg_row(61).0),
        lex_lt(pg_row(61).0, pg_row(62).0),
        lex_lt(pg_row(62).0, pg_row(63).0),
{
    assert(lex_lt("serial2"@, "serial4"@)) by {
        reveal_strlit("serial2");
        reveal_strlit("serial4");
        reveal_with_fuel(lex_lt_from, 30);
    }
    assert(lex_lt("serial4"@, "serial8"@)) by {
        reveal_strlit("serial4");
        reveal_strlit("serial8");
        reveal_with_fuel(lex_lt_from, 30);
    }
    assert(lex_lt("serial8"@, "text"@)) by {
        reveal_strlit("serial8");
        reveal_strlit("text");
        reveal_with_fuel(lex_lt_from, 30);
    }
    assert(lex_lt("text"@, "time"@)) by {
        reveal_strlit("text");
        reveal_strlit("time");
        reveal_with_fuel(lex_lt_from, 30);
    }
    assert(lex_lt("time"@, "timestamp"@)) by {
        reveal_strlit("time");
        reveal_strlit("timestamp");
        reveal_with_fuel(lex_lt_from, 30);
    }
    assert(lex_lt("timestamp"@, "timestamptz"@)) by {
        reveal_strlit("timestamp");
        reveal_strlit("timestamptz");
        reveal_with_fuel(lex_lt_from, 30);
    }
    assert(lex_lt("timestamptz"@, "timetz"@)) by {
        reveal_strlit("timestamptz");
        reveal_strlit("timetz");
        reveal_with_fuel(lex_lt_from, 30);
    }
    assert(lex_lt("timetz"@, "tsmultirange"@)) by {
        reveal_strlit("timetz");
        reveal_strlit("tsmultirange");
        reveal_with_fuel(lex_lt_from, 30);
    }
    assert(lex_lt("tsmultirange"@, "tsquery"@)) by {
        reveal_strlit("tsmultirange");
        reveal_strlit("tsquery");
        reveal_with_fuel(lex_lt_from, 30);
    }
}

proof fn lemma_pg_adjacent_7()
    ensures
        lex_lt(pg_row(63).0, pg_row(64).0),
        lex_lt(pg_row(64).0, pg_row(65).0),
        lex_lt(pg_row(65).0, pg_row(66).0),
        lex_lt(pg_row(66).0, pg_row(67).0),
        lex_lt(pg_row(67).0, pg_row(68).0),
        lex_lt(pg_row(68).0, pg_row(69).0),
        lex_lt(pg_row(69).0, pg_row(70).0),
        lex_lt(pg_row(70).0, pg_row(71).0),
        lex_lt(pg_row(71).0, pg_row(72).0),
{
    assert(lex_lt("tsquery"@, "tsrange"@)) by {
        reveal_strlit("tsquery");
        reveal_strlit("tsrange");
        reveal_with_fuel(lex_lt_from, 30);
    }
    assert(lex_lt("tsrange"@, "tstzmultirange"@)) by {
        reveal_strlit("tsrange");
        reveal_strlit("tstzmultirange");
        reveal_with_fuel(lex_lt_from, 30);
    }
    assert(lex_lt("tstzmultirange"@, "tstzrange"@)) by {
        reveal_strlit("tstzmultirange");
        reveal_strlit("tstzrange");
        reveal_with_fuel(lex_lt_from, 30);
    }
    assert(lex_lt("tstzrange"@, "tsvector"@)) by {
        reveal_strlit("tstzrange");
        reveal_strlit("tsvector");
        reveal_with_fuel(lex_lt_from, 30);
    }
    assert(lex_lt("tsvector"@, "unknown"@)) by {
        reveal_strlit("tsvector");
        reveal_strlit("unknown");
        reveal_with_fuel(lex_lt_from, 30);
    }
    assert(lex_lt("unknown"@, "uuid"@)) by {
        reveal_strlit("unknown");
        reveal_strlit("uuid");
        reveal_with_fuel(lex_lt_from, 30);
    }
    assert(lex_lt("uuid"@, "varchar"@)) by {
        reveal_strlit("uuid");
        reveal_strlit("varchar");
        reveal_with_fuel(lex_lt_from, 30);
    }
    assert(lex_lt("varchar"@, "void"@)) by {
        reveal_strlit("varchar");
        reveal_strlit("void");
        reveal_with_fuel(lex_lt_from, 30);
    }
    assert(lex_lt("void"@, "xml"@)) by {
        reveal_strlit("void");
        reveal_strlit("xml");
        reveal_with_fuel(lex_lt_from, 30);
    }
}

proof fn lemma_pg_adjacent()
    ensures
        forall|i: int|
            0 <= i < pg_table_len() - 1 ==> lex_lt(
                (#[trigger] pg_row(i)).0,
                pg_row(i + 1).0,
            ),
{
    lemma_pg_adjacent_0();
    lemma_pg_adjacent_1();
    lemma_pg_adjacent_2();
    lemma_pg_adjacent_3();
    lemma_pg_adjacent_4();
    lemma_pg_adjacent_5();
    lemma_pg_adjacent_6();
    lemma_pg_adjacent_7();
}

proof fn lemma_pg_span(i: int, j: int)
    requires
        0 <= i < j < pg_table_len(),
    ensures
        lex_lt(pg_row(i).0, pg_row(j).0),
    decreases j - i,
{
    lemma_pg_adjacent();
    if j > i + 1 {
        lemma_pg_span(i, j - 1);
        lemma_lex_lt_trans(pg_row(i).0, pg_row(j - 1).0, pg_row(j).0);
    }
}

/// The built-in name table is strictly sorted by name, which makes each
/// name occur exactly once.
pub proof fn lemma_pg_table_sorted()
    ensures
        forall|i: int, j: int|
            0 <= i < j < pg_name_table().len() ==> lex_lt(
                (#[trigger] pg_name_table()[i]).0,
                (#[trigger] pg_name_table()[j]).0,
            ),
{
    assert forall|i: int, j: int| 0 <= i < j < pg_name_table().len() implies lex_lt(
        (#[trigger] pg_name_table()[i]).0,
        (#[trigger] pg_name_table()[j]).0,
    ) by {
        lemma_pg_span(i, j);
    }
}

} // verus!

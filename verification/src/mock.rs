//! A tiny hand-built catalog used by tests and examples.

use vstd::prelude::*;

use crate::request::{Catalog, Enum, Record, Schema};

verus! {

/// One enum called `myenum` with no values.
pub fn enums() -> (r: Vec<Enum>)
    ensures
        r@.len() == 1,
        r@[0].name@ == "myenum"@,
        r@[0].values@.len() == 0,
{
    let mut r: Vec<Enum> = Vec::new();
    r.push(Enum { name: String::from_str("myenum"), values: Vec::new() });
    r
}

/// One table record with an empty name and no columns.
pub fn records() -> (r: Vec<Record>)
    ensures
        r@.len() == 1,
        r@[0].kind@ == "table"@,
        r@[0].name@.len() == 0,
        r@[0].columns@.len() == 0,
{
    let mut r: Vec<Record> = Vec::new();
    r.push(Record { kind: String::from_str("table"), name: String::new(), columns: Vec::new() });
    r
}

/// The `public` schema holding the mock enum and record.
pub fn schema() -> (r: Schema)
    ensures
        r.name@ == "public"@,
        r.enums@.len() == 1,
        r.records@.len() == 1,
{
    Schema { name: String::from_str("public"), enums: enums(), records: records() }
}

/// A catalog holding only the mock schema.
pub fn catalog() -> (r: Catalog)
    ensures
        r.schemas@.len() == 1,
        r.schemas@[0].name@ == "public"@,
{
    let mut schemas: Vec<Schema> = Vec::new();
    schemas.push(schema());
    Catalog { schemas }
}

} // verus!

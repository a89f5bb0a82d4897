//! The type resolver: turns a raw (schema, name) reference, a query output
//! type, or a table column descriptor into a canonical type. Unknown names
//! never fail; they degrade to `Any` on purpose, so that catalogs holding
//! types this library does not know about still resolve.

use vstd::prelude::*;

use crate::request::{Catalog, Column, OutputType, Schema};
use crate::strutil::{clone_strings, index_of_name, lemma_index_of_name, str_eq};
use crate::table::{pg_name_table, spec_from_pg_catalog, table_lookup};
use crate::ty::{wf_typev, Type, TypeV};

verus! {

/// Index of the first schema called `name`, or -1.
pub open spec fn schema_index(schemas: Seq<Schema>, name: Seq<char>) -> int {
    index_of_name(schemas.map_values(|s: Schema| s.name@), name)
}

/// Index of the first record called `name`, or -1.
pub open spec fn record_index(records: Seq<crate::request::Record>, name: Seq<char>) -> int {
    index_of_name(records.map_values(|r: crate::request::Record| r.name@), name)
}

/// Index of the first enum called `name`, or -1.
pub open spec fn enum_index(enums: Seq<crate::request::Enum>, name: Seq<char>) -> int {
    index_of_name(enums.map_values(|e: crate::request::Enum| e.name@), name)
}

/// The user-defined type that refers to `name` declared in `schema`: its
/// module path is the models directory followed by the schema name.
pub open spec fn spec_user_defined_model(schema: Schema, name: Seq<char>) -> TypeV {
    TypeV::UserDefined { modpath: seq!["models"@, schema.name@], name: name }
}

/// Resolution of a raw (schema, name) reference against the catalog:
/// `pg_catalog` names go through the built-in table; any other schema is
/// searched for a record, then an enum, of that name; everything else is
/// `Any`.
pub open spec fn spec_resolve_from_catalog(
    cat: Catalog,
    schema_name: Seq<char>,
    name: Seq<char>,
) -> TypeV {
    if schema_name == "pg_catalog"@ {
        spec_from_pg_catalog(name)
    } else {
        let si = schema_index(cat.schemas@, schema_name);
        if si < 0 {
            TypeV::Any
        } else {
            let schema = cat.schemas@[si];
            if record_index(schema.records@, name) >= 0 || enum_index(schema.enums@, name) >= 0 {
                spec_user_defined_model(schema, name)
            } else {
                TypeV::Any
            }
        }
    }
}

/// The enum type backing a column through its foreign-key linkage, when the
/// linked table is a registered enum of the linked schema.
pub open spec fn spec_table_backed_enum(cat: Catalog, col: Column) -> Option<TypeV> {
    match (col.foreign_table_schema, col.foreign_table_name) {
        (Some(fts), Some(ftn)) => {
            let si = schema_index(cat.schemas@, fts@);
            if si < 0 {
                None
            } else {
                let schema = cat.schemas@[si];
                if enum_index(schema.enums@, ftn@) >= 0 {
                    Some(spec_user_defined_model(schema, ftn@))
                } else {
                    None
                }
            }
        },
        _ => None,
    }
}

/// Full column resolution: nominal type, then the foreign-key enum override,
/// then one array wrap for a positive dimension count, then at most one
/// nullable wrap.
pub open spec fn spec_from_column(cat: Catalog, col: Column) -> TypeV {
    let base = spec_resolve_from_catalog(cat, col.type_field.schema_name@, col.type_field.name@);
    let base = match spec_table_backed_enum(cat, col) {
        Some(t) => t,
        None => base,
    };
    let base = if col.type_field.is_array && col.type_field.array_dimensions >= 1 {
        TypeV::Array { elem: Box::new(base), dim: col.type_field.array_dimensions as int }
    } else {
        base
    };
    if col.is_nullable {
        TypeV::Nullable(Box::new(base))
    } else {
        base
    }
}

/// Resolves raw type references against one immutable catalog.
pub struct TypeService<'a> {
    pub catalog: &'a Catalog,
}

impl<'a> TypeService<'a> {
    /// A user-defined type under an explicit module path.
    pub fn user_defined(&self, modpath: &Vec<String>, name: &str) -> (r: Type)
        ensures
            r@ == (TypeV::UserDefined { modpath: modpath.deep_view(), name: name@ }),
    {
        Type::UserDefined { modpath: clone_strings(modpath), name: name.to_owned() }
    }

    /// Resolves the raw type of a query output column or parameter.
    pub fn resolve_from_output(&self, ty: &OutputType) -> (r: Type)
        ensures
            r@ == spec_resolve_from_catalog(*self.catalog, ty.schema@, ty.name@),
    {
        self.resolve_from_catalog(&ty.schema, &ty.name)
    }

    /// Resolves a column: nominal type, foreign-key enum override, array and
    /// nullability wrapping, in that order.
    pub fn from_column(&self, column: &Column) -> (r: Type)
        ensures
            r@ == spec_from_column(*self.catalog, *column),
    {
        let mut t = self.resolve_from_catalog(
            &column.type_field.schema_name,
            &column.type_field.name,
        );
        match self.find_table_backed_enum(column) {
            Some(te) => {
                t = te;
            },
            None => {},
        }
        let ghost base1 = t@;
        if column.type_field.is_array && column.type_field.array_dimensions >= 1 {
            t = Type::Array { elem: Box::new(t), dim: column.type_field.array_dimensions };
            proof {
                assert(t@ == (TypeV::Array {
                    elem: Box::new(base1),
                    dim: column.type_field.array_dimensions as int,
                }));
            }
        }
        let ghost base2 = t@;
        if column.is_nullable {
            t = Type::Nullable(Box::new(t));
            proof {
                assert(t@ == TypeV::Nullable(Box::new(base2)));
            }
        }
        t
    }

    /// The enum override for a foreign-key linked column, when its target
    /// table is an enum.
    fn find_table_backed_enum(&self, column: &Column) -> (r: Option<Type>)
        ensures
            spec_table_backed_enum(*self.catalog, *column) matches Some(tv) ==> (r matches Some(t)
                && t@ == tv),
            spec_table_backed_enum(*self.catalog, *column) is None ==> r is None,
    {
        let fts = match &column.foreign_table_schema {
            Some(s) => s,
            None => {
                return None;
            },
        };
        let ftn = match &column.foreign_table_name {
            Some(s) => s,
            None => {
                return None;
            },
        };
        let schema = match self.get_schema(fts.as_str()) {
            Some(s) => s,
            None => {
                return None;
            },
        };
        self.resolve_enum(schema, ftn.as_str())
    }

    fn resolve_from_catalog(&self, schema_name: &str, name: &str) -> (r: Type)
        ensures
            r@ == spec_resolve_from_catalog(*self.catalog, schema_name@, name@),
    {
        if str_eq(schema_name, "pg_catalog") {
            return self.from_pg_catalog(name);
        }
        match self.from_user_defined_catalog(schema_name, name) {
            Some(t) => t,
            None => Type::Any,
        }
    }

    fn from_user_defined_catalog(&self, schema_name: &str, name: &str) -> (r: Option<Type>)
        ensures
            ({
                let si = schema_index(self.catalog.schemas@, schema_name@);
                if si < 0 {
                    r is None
                } else {
                    let schema = self.catalog.schemas@[si];
                    if record_index(schema.records@, name@) >= 0 || enum_index(
                        schema.enums@,
                        name@,
                    ) >= 0 {
                        r matches Some(t) && t@ == spec_user_defined_model(schema, name@)
                    } else {
                        r is None
                    }
                }
            }),
    {
        let schema = match self.get_schema(schema_name) {
            Some(s) => s,
            None => {
                return None;
            },
        };
        match self.resolve_record(schema, name) {
            Some(t) => Some(t),
            None => self.resolve_enum(schema, name),
        }
    }

    fn resolve_enum(&self, schema: &Schema, name: &str) -> (r: Option<Type>)
        ensures
            enum_index(schema.enums@, name@) >= 0 ==> (r matches Some(t) && t@
                == spec_user_defined_model(*schema, name@)),
            enum_index(schema.enums@, name@) < 0 ==> r is None,
    {
        let ghost names = schema.enums@.map_values(|e: crate::request::Enum| e.name@);
        let mut i: usize = 0;
        while i < schema.enums.len()
            invariant
                i <= schema.enums.len(),
                names == schema.enums@.map_values(|e: crate::request::Enum| e.name@),
                forall|j: int| 0 <= j < i ==> names[j] != name@,
            decreases schema.enums.len() - i,
        {
            proof {
                assert(names[i as int] == schema.enums@[i as int].name@);
            }
            if str_eq(schema.enums[i].name.as_str(), name) {
                proof {
                    lemma_index_of_name(names, name@);
                }
                return Some(self.user_defined_model(schema, name));
            }
            i = i + 1;
        }
        proof {
            lemma_index_of_name(names, name@);
        }
        None
    }

    fn resolve_record(&self, schema: &Schema, name: &str) -> (r: Option<Type>)
        ensures
            record_index(schema.records@, name@) >= 0 ==> (r matches Some(t) && t@
                == spec_user_defined_model(*schema, name@)),
            record_index(schema.records@, name@) < 0 ==> r is None,
    {
        let ghost names = schema.records@.map_values(|rec: crate::request::Record| rec.name@);
        let mut i: usize = 0;
        while i < schema.records.len()
            invariant
                i <= schema.records.len(),
                names == schema.records@.map_values(|rec: crate::request::Record| rec.name@),
                forall|j: int| 0 <= j < i ==> names[j] != name@,
            decreases schema.records.len() - i,
        {
            proof {
                assert(names[i as int] == schema.records@[i as int].name@);
            }
            if str_eq(schema.records[i].name.as_str(), name) {
                proof {
                    lemma_index_of_name(names, name@);
                }
                return Some(self.user_defined_model(schema, name));
            }
            i = i + 1;
        }
        proof {
            lemma_index_of_name(names, name@);
        }
        None
    }

    fn user_defined_model(&self, schema: &Schema, name: &str) -> (r: Type)
        ensures
            r@ == spec_user_defined_model(*schema, name@),
    {
        let mut modpath: Vec<String> = Vec::new();
        modpath.push(String::from_str("models"));
        modpath.push(schema.name.clone());
        let r = Type::UserDefined { modpath, name: name.to_owned() };
        proof {
            assert(r@ matches TypeV::UserDefined { modpath: mp, .. } && mp =~= seq![
                "models"@,
                schema.name@,
            ]);
        }
        r
    }

    fn get_schema(&self, schema_name: &str) -> (r: Option<&Schema>)
        ensures
            schema_index(self.catalog.schemas@, schema_name@) >= 0 ==> (r matches Some(s) && *s
                == self.catalog.schemas@[schema_index(self.catalog.schemas@, schema_name@)]),
            schema_index(self.catalog.schemas@, schema_name@) < 0 ==> r is None,
    {
        let ghost names = self.catalog.schemas@.map_values(|s: Schema| s.name@);
        let mut i: usize = 0;
        while i < self.catalog.schemas.len()
            invariant
                i <= self.catalog.schemas.len(),
                names == self.catalog.schemas@.map_values(|s: Schema| s.name@),
                forall|j: int| 0 <= j < i ==> names[j] != schema_name@,
            decreases self.catalog.schemas.len() - i,
        {
            proof {
                assert(names[i as int] == self.catalog.schemas@[i as int].name@);
            }
            if str_eq(self.catalog.schemas[i].name.as_str(), schema_name) {
                proof {
                    lemma_index_of_name(names, schema_name@);
                }
                return Some(&self.catalog.schemas[i]);
            }
            i = i + 1;
        }
        proof {
            lemma_index_of_name(names, schema_name@);
        }
        None
    }

    fn from_pg_catalog(&self, tyname: &str) -> (r: Type)
        ensures
            r@ == spec_from_pg_catalog(tyname@),
    {
        let table = Type::names();
        let mut i: usize = 0;
        proof {
            assert(pg_name_table().skip(0) =~= pg_name_table());
        }
        while i < table.len()
            invariant
                i <= table.len(),
                table@.len() == pg_name_table().len(),
                forall|j: int|
                    0 <= j < table@.len() ==> (#[trigger] table@[j]).0@ == pg_name_table()[j].0
                        && table@[j].1@ == pg_name_table()[j].1,
                table_lookup(pg_name_table().skip(i as int), tyname@) == spec_from_pg_catalog(
                    tyname@,
                ),
            decreases table.len() - i,
        {
            proof {
                assert(pg_name_table().skip(i as int)[0] == pg_name_table()[i as int]);
                assert(pg_name_table().skip(i as int).drop_first() =~= pg_name_table().skip(
                    i as int + 1,
                ));
            }
            if str_eq(table[i].0, tyname) {
                return table[i].1.clone();
            }
            i = i + 1;
        }
        proof {
            assert(pg_name_table().skip(pg_name_table().len() as int).len() == 0);
        }
        Type::Any
    }
}

/// A type with no structural wrapper at its root.
pub open spec fn is_base_typev(t: TypeV) -> bool {
    !(t is Nullable) && !(t is Array)
}

proof fn lemma_table_lookup_base(t: Seq<(Seq<char>, TypeV)>, name: Seq<char>)
    requires
        forall|i: int| 0 <= i < t.len() ==> is_base_typev((#[trigger] t[i]).1) && wf_typev(t[i].1),
    ensures
        is_base_typev(table_lookup(t, name)),
        wf_typev(table_lookup(t, name)),
    decreases t.len(),
{
    if t.len() != 0 && t[0].0 != name {
        assert forall|i: int|
            0 <= i < t.drop_first().len() implies is_base_typev(
            (#[trigger] t.drop_first()[i]).1,
        ) && wf_typev(t.drop_first()[i].1) by {
            assert(t.drop_first()[i] == t[i + 1]);
        }
        lemma_table_lookup_base(t.drop_first(), name);
    }
}

proof fn lemma_pg_rows_base()
    ensures
        forall|i: int|
            0 <= i < pg_name_table().len() ==> is_base_typev((#[trigger] pg_name_table()[i]).1)
                && wf_typev(pg_name_table()[i].1),
{
}

/// Raw reference resolution never yields a structural wrapper, and its
/// result is well formed.
pub proof fn lemma_resolve_base(cat: Catalog, schema_name: Seq<char>, name: Seq<char>)
    ensures
        is_base_typev(spec_resolve_from_catalog(cat, schema_name, name)),
        wf_typev(spec_resolve_from_catalog(cat, schema_name, name)),
{
    if schema_name == "pg_catalog"@ {
        lemma_pg_rows_base();
        lemma_table_lookup_base(pg_name_table(), name);
    }
}

/// Column resolution always yields a well-formed type: nullability never
/// nests and every array dimension is positive, whatever the catalog and
/// column hold.
pub proof fn lemma_from_column_wf(cat: Catalog, col: Column)
    ensures
        wf_typev(spec_from_column(cat, col)),
{
    lemma_resolve_base(cat, col.type_field.schema_name@, col.type_field.name@);
    let base0 = spec_resolve_from_catalog(cat, col.type_field.schema_name@, col.type_field.name@);
    let base1 = match spec_table_backed_enum(cat, col) {
        Some(t) => t,
        None => base0,
    };
    assert(wf_typev(base1) && !(base1 is Nullable) && !(base1 is Array));
    let d = col.type_field.array_dimensions as int;
    let base2 = if col.type_field.is_array && d >= 1 {
        TypeV::Array { elem: Box::new(base1), dim: d }
    } else {
        base1
    };
    assert(wf_typev(base2) && !(base2 is Nullable));
    if col.is_nullable {
        assert(wf_typev(TypeV::Nullable(Box::new(base2))));
    }
}

} // verus!

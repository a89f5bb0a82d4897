//! The input data model: a catalog of schemas, the analyzed queries, and the
//! configuration block that selects the target language. These are plain
//! values; the host hands them in fully deserialized.
//!
//! Each struct has a hand-written `Clone` whose contract says that the copy
//! agrees with the original on every field, stated over views by the
//! `*_like` predicates.

use vstd::prelude::*;

use crate::strutil::clone_strings;

verus! {

pub struct ColumnType {
    pub name: String,
    pub display: String,
    pub is_array: bool,
    pub schema_name: String,
    pub is_composite: bool,
    pub array_dimensions: i64,
}

pub struct Column {
    pub name: String,
    pub type_field: ColumnType,
    pub default: Option<String>,
    pub is_unique: bool,
    pub is_nullable: bool,
    pub is_foreign_key: bool,
    pub is_primary_key: bool,
    pub foreign_table_name: Option<String>,
    pub foreign_table_schema: Option<String>,
}

pub struct Record {
    pub kind: String,
    pub name: String,
    pub columns: Vec<Column>,
}

pub struct Enum {
    pub name: String,
    pub values: Vec<String>,
}

pub struct Schema {
    pub name: String,
    pub enums: Vec<Enum>,
    pub records: Vec<Record>,
}

pub struct Catalog {
    pub schemas: Vec<Schema>,
}

/// One annotation attached to a query, e.g. a namespace override.
pub struct Annotation {
    pub value: Option<String>,
    pub line: i64,
}

pub struct OutputType {
    pub schema: String,
    pub name: String,
    pub id: i64,
}

pub struct OutputColumn {
    pub name: String,
    pub type_field: OutputType,
}

pub struct Parameter {
    pub name: String,
    pub type_field: OutputType,
    pub not_null: bool,
}

pub struct Query {
    pub query: String,
    pub name: String,
    pub command: String,
    pub path: String,
    pub annotations: Vec<(String, Annotation)>,
    pub output: Vec<OutputColumn>,
    pub parameters: Vec<Parameter>,
}

/// A configured replacement mapping for one catalog type.
pub struct TypeConfig {
    pub annotation: String,
    pub import: Vec<String>,
}

pub struct Codegen {
    pub out: String,
    pub language: String,
    pub driver: String,
    pub types: Vec<(String, TypeConfig)>,
    pub options: Vec<(String, String)>,
}

pub struct Config {
    pub version: String,
    pub queries: Vec<String>,
    pub codegen: Codegen,
}

pub struct Request {
    pub catalog: Catalog,
    pub queries: Vec<Query>,
    pub config: Config,
}

pub open spec fn opt_str_like(a: Option<String>, b: Option<String>) -> bool {
    match (a, b) {
        (Some(x), Some(y)) => x@ == y@,
        (None, None) => true,
        _ => false,
    }
}

pub open spec fn column_type_like(a: ColumnType, b: ColumnType) -> bool {
    &&& a.name@ == b.name@
    &&& a.display@ == b.display@
    &&& a.is_array == b.is_array
    &&& a.schema_name@ == b.schema_name@
    &&& a.is_composite == b.is_composite
    &&& a.array_dimensions == b.array_dimensions
}

pub open spec fn column_like(a: Column, b: Column) -> bool {
    &&& a.name@ == b.name@
    &&& column_type_like(a.type_field, b.type_field)
    &&& opt_str_like(a.default, b.default)
    &&& a.is_unique == b.is_unique
    &&& a.is_nullable == b.is_nullable
    &&& a.is_foreign_key == b.is_foreign_key
    &&& a.is_primary_key == b.is_primary_key
    &&& opt_str_like(a.foreign_table_name, b.foreign_table_name)
    &&& opt_str_like(a.foreign_table_schema, b.foreign_table_schema)
}

pub open spec fn record_like(a: Record, b: Record) -> bool {
    &&& a.kind@ == b.kind@
    &&& a.name@ == b.name@
    &&& a.columns.len() == b.columns.len()
    &&& forall|i: int| 0 <= i < a.columns.len() ==> column_like(#[trigger] a.columns[i], b.columns[i])
}

pub open spec fn enum_like(a: Enum, b: Enum) -> bool {
    &&& a.name@ == b.name@
    &&& a.values.deep_view() == b.values.deep_view()
}

pub open spec fn schema_like(a: Schema, b: Schema) -> bool {
    &&& a.name@ == b.name@
    &&& a.enums.len() == b.enums.len()
    &&& forall|i: int| 0 <= i < a.enums.len() ==> enum_like(#[trigger] a.enums[i], b.enums[i])
    &&& a.records.len() == b.records.len()
    &&& forall|i: int| 0 <= i < a.records.len() ==> record_like(#[trigger] a.records[i], b.records[i])
}

pub open spec fn catalog_like(a: Catalog, b: Catalog) -> bool {
    &&& a.schemas.len() == b.schemas.len()
    &&& forall|i: int| 0 <= i < a.schemas.len() ==> schema_like(#[trigger] a.schemas[i], b.schemas[i])
}

pub open spec fn output_type_like(a: OutputType, b: OutputType) -> bool {
    &&& a.schema@ == b.schema@
    &&& a.name@ == b.name@
    &&& a.id == b.id
}

pub open spec fn annotation_like(a: Annotation, b: Annotation) -> bool {
    &&& opt_str_like(a.value, b.value)
    &&& a.line == b.line
}

pub open spec fn query_like(a: Query, b: Query) -> bool {
    &&& a.query@ == b.query@
    &&& a.name@ == b.name@
    &&& a.command@ == b.command@
    &&& a.path@ == b.path@
    &&& a.annotations.len() == b.annotations.len()
    &&& forall|i: int|
        0 <= i < a.annotations.len() ==> (#[trigger] a.annotations[i]).0@ == b.annotations[i].0@
            && annotation_like(a.annotations[i].1, b.annotations[i].1)
    &&& a.output.len() == b.output.len()
    &&& forall|i: int|
        0 <= i < a.output.len() ==> (#[trigger] a.output[i]).name@ == b.output[i].name@
            && output_type_like(a.output[i].type_field, b.output[i].type_field)
    &&& a.parameters.len() == b.parameters.len()
    &&& forall|i: int|
        0 <= i < a.parameters.len() ==> (#[trigger] a.parameters[i]).name@ == b.parameters[i].name@
            && output_type_like(a.parameters[i].type_field, b.parameters[i].type_field)
            && a.parameters[i].not_null == b.parameters[i].not_null
}

pub open spec fn type_config_like(a: TypeConfig, b: TypeConfig) -> bool {
    &&& a.annotation@ == b.annotation@
    &&& a.import.deep_view() == b.import.deep_view()
}

impl Clone for TypeConfig {
    fn clone(&self) -> (r: Self)
        ensures
            type_config_like(r, *self),
    {
        TypeConfig {
            annotation: self.annotation.clone(),
            import: clone_strings(&self.import),
        }
    }
}

impl Clone for ColumnType {
    fn clone(&self) -> (r: Self)
        ensures
            column_type_like(r, *self),
    {
        ColumnType {
            name: self.name.clone(),
            display: self.display.clone(),
            is_array: self.is_array,
            schema_name: self.schema_name.clone(),
            is_composite: self.is_composite,
            array_dimensions: self.array_dimensions,
        }
    }
}

fn clone_opt_str(v: &Option<String>) -> (r: Option<String>)
    ensures
        opt_str_like(r, *v),
{
    match v {
        Some(s) => Some(s.clone()),
        None => None,
    }
}

impl Clone for Column {
    fn clone(&self) -> (r: Self)
        ensures
            column_like(r, *self),
    {
        Column {
            name: self.name.clone(),
            type_field: self.type_field.clone(),
            default: clone_opt_str(&self.default),
            is_unique: self.is_unique,
            is_nullable: self.is_nullable,
            is_foreign_key: self.is_foreign_key,
            is_primary_key: self.is_primary_key,
            foreign_table_name: clone_opt_str(&self.foreign_table_name),
            foreign_table_schema: clone_opt_str(&self.foreign_table_schema),
        }
    }
}

impl Clone for Record {
    fn clone(&self) -> (r: Self)
        ensures
            record_like(r, *self),
    {
        let mut columns: Vec<Column> = Vec::new();
        let mut i: usize = 0;
        while i < self.columns.len()
            invariant
                i <= self.columns.len(),
                columns.len() == i,
                forall|j: int| 0 <= j < i ==> column_like(#[trigger] columns[j], self.columns[j]),
            decreases self.columns.len() - i,
        {
            columns.push(self.columns[i].clone());
            i = i + 1;
        }
        Record { kind: self.kind.clone(), name: self.name.clone(), columns }
    }
}

impl Clone for Enum {
    fn clone(&self) -> (r: Self)
        ensures
            enum_like(r, *self),
    {
        Enum { name: self.name.clone(), values: clone_strings(&self.values) }
    }
}

impl Clone for Schema {
    fn clone(&self) -> (r: Self)
        ensures
            schema_like(r, *self),
    {
        let mut enums: Vec<Enum> = Vec::new();
        let mut i: usize = 0;
        while i < self.enums.len()
            invariant
                i <= self.enums.len(),
                enums.len() == i,
                forall|j: int| 0 <= j < i ==> enum_like(#[trigger] enums[j], self.enums[j]),
            decreases self.enums.len() - i,
        {
            enums.push(self.enums[i].clone());
            i = i + 1;
        }
        let mut records: Vec<Record> = Vec::new();
        let mut i: usize = 0;
        while i < self.records.len()
            invariant
                i <= self.records.len(),
                records.len() == i,
                forall|j: int| 0 <= j < i ==> record_like(#[trigger] records[j], self.records[j]),
            decreases self.records.len() - i,
        {
            records.push(self.records[i].clone());
            i = i + 1;
        }
        Schema { name: self.name.clone(), enums, records }
    }
}

impl Clone for Catalog {
    fn clone(&self) -> (r: Self)
        ensures
            catalog_like(r, *self),
    {
        let mut schemas: Vec<Schema> = Vec::new();
        let mut i: usize = 0;
        while i < self.schemas.len()
            invariant
                i <= self.schemas.len(),
                schemas.len() == i,
                forall|j: int| 0 <= j < i ==> schema_like(#[trigger] schemas[j], self.schemas[j]),
            decreases self.schemas.len() - i,
        {
            schemas.push(self.schemas[i].clone());
            i = i + 1;
        }
        Catalog { schemas }
    }
}

impl Clone for OutputType {
    fn clone(&self) -> (r: Self)
        ensures
            output_type_like(r, *self),
    {
        OutputType { schema: self.schema.clone(), name: self.name.clone(), id: self.id }
    }
}

impl Clone for Annotation {
    fn clone(&self) -> (r: Self)
        ensures
            annotation_like(r, *self),
    {
        Annotation { value: clone_opt_str(&self.value), line: self.line }
    }
}

impl Clone for Query {
    fn clone(&self) -> (r: Self)
        ensures
            query_like(r, *self),
    {
        let mut annotations: Vec<(String, Annotation)> = Vec::new();
        let mut i: usize = 0;
        while i < self.annotations.len()
            invariant
                i <= self.annotations.len(),
                annotations.len() == i,
                forall|j: int|
                    0 <= j < i ==> (#[trigger] annotations[j]).0@ == self.annotations[j].0@
                        && annotation_like(annotations[j].1, self.annotations[j].1),
            decreases self.annotations.len() - i,
        {
            let pair = &self.annotations[i];
            annotations.push((pair.0.clone(), pair.1.clone()));
            i = i + 1;
        }
        let mut output: Vec<OutputColumn> = Vec::new();
        let mut i: usize = 0;
        while i < self.output.len()
            invariant
                i <= self.output.len(),
                output.len() == i,
                forall|j: int|
                    0 <= j < i ==> (#[trigger] output[j]).name@ == self.output[j].name@
                        && output_type_like(output[j].type_field, self.output[j].type_field),
            decreases self.output.len() - i,
        {
            let col = &self.output[i];
            output.push(OutputColumn { name: col.name.clone(), type_field: col.type_field.clone() });
            i = i + 1;
        }
        let mut parameters: Vec<Parameter> = Vec::new();
        let mut i: usize = 0;
        while i < self.parameters.len()
            invariant
                i <= self.parameters.len(),
                parameters.len() == i,
                forall|j: int|
                    0 <= j < i ==> (#[trigger] parameters[j]).name@ == self.parameters[j].name@
                        && output_type_like(parameters[j].type_field, self.parameters[j].type_field)
                        && parameters[j].not_null == self.parameters[j].not_null,
            decreases self.parameters.len() - i,
        {
            let p = &self.parameters[i];
            parameters.push(
                Parameter {
                    name: p.name.clone(),
                    type_field: p.type_field.clone(),
                    not_null: p.not_null,
                },
            );
            i = i + 1;
        }
        Query {
            query: self.query.clone(),
            name: self.name.clone(),
            command: self.command.clone(),
            path: self.path.clone(),
            annotations,
            output,
            parameters,
        }
    }
}

} // verus!

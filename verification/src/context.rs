//! The render contexts: each template invocation receives its named values
//! as one JSON object, written by these serializers. Every function states
//! the exact text it appends.

use vstd::prelude::*;

use crate::display::{display_of, int_digits};
use crate::json::{jbool, jbool_into, jint_into, jstr, jstr_into};
use crate::method::{Method, MethodModel};
use crate::namespace::QueryNamespace;
use crate::models::{Model, ModelField, ModelModule};
use crate::request::{Annotation, Column, ColumnType, Enum, OutputColumn, OutputType, Parameter, Query, Record};
use crate::ty::Type;

verus! {

/// The JSON form of an optional string: the string or null.
pub open spec fn jopt_str(v: Option<String>) -> Seq<char> {
    match v {
        Some(s) => jstr(s@),
        None => "null"@,
    }
}

/// Appends an optional string to `out`.
#[verifier::rlimit(50)]
pub fn jopt_str_into(out: &mut String, v: &Option<String>)
    ensures
        final(out)@ == old(out)@ + jopt_str(*v),
{
    match v {
        Some(s) => jstr_into(out, s.as_str()),
        None => out.append("null"),
    }
}

/// The JSON form of a canonical type: its display form as a string.
pub open spec fn type_json_j(t: Type) -> Seq<char> {
    jstr(display_of(t@))
}

/// Appends the JSON form of a canonical type to `out`.
#[verifier::rlimit(50)]
pub fn type_json_into(out: &mut String, t: &Type)
    ensures
        final(out)@ == old(out)@ + type_json_j(*t),
{
    let d = t.to_display_form();
    jstr_into(out, d.as_str());
}

/// A JSON array of strings, in order.
pub open spec fn strs_items(s: Seq<Seq<char>>) -> Seq<char>
    decreases s.len(),
{
    if s.len() == 0 {
        Seq::empty()
    } else if s.len() == 1 {
        jstr(s[0])
    } else {
        strs_items(s.drop_last()) + ","@ + jstr(s.last())
    }
}

pub open spec fn strs_arr(s: Seq<Seq<char>>) -> Seq<char> {
    "["@ + strs_items(s) + "]"@
}

/// Appends a JSON array of strings to `out`.
#[verifier::rlimit(50)]
pub fn strs_arr_into(out: &mut String, v: &Vec<String>)
    ensures
        final(out)@ == old(out)@ + strs_arr(v.deep_view()),
{
    out.append("[");
    let mut i: usize = 0;
    proof {
        assert(v.deep_view().take(0) =~= Seq::<Seq<char>>::empty());
        assert(out@ =~= old(out)@ + "["@ + strs_items(v.deep_view().take(0)));
    }
    while i < v.len()
        invariant
            i <= v@.len(),
            v.deep_view().len() == v@.len(),
            out@ == old(out)@ + "["@ + strs_items(v.deep_view().take(i as int)),
        decreases v@.len() - i,
    {
        proof {
            assert(v.deep_view().take(i + 1).drop_last() =~= v.deep_view().take(i as int));
            assert(v.deep_view().take(i + 1).last() == v.deep_view()[i as int]);
            assert(v.deep_view()[i as int] == v@[i as int]@);
        }
        if i > 0 {
            out.append(",");
        }
        jstr_into(out, v[i].as_str());
        proof {
            if i == 0 {
                assert(out@ =~= old(out)@ + "["@ + strs_items(v.deep_view().take(1)));
            } else {
                assert(out@ =~= old(out)@ + "["@ + strs_items(v.deep_view().take(i + 1)));
            }
        }
        i = i + 1;
    }
    proof {
        assert(v.deep_view().take(v@.len() as int) =~= v.deep_view());
    }
    out.append("]");
    proof {
        assert(out@ =~= old(out)@ + strs_arr(v.deep_view()));
    }
}

/// The JSON form of a raw column type descriptor.
pub open spec fn column_type_j(x: ColumnType) -> Seq<char> {
    "{\"name\":"@ + jstr(x.name@) + ",\"display\":"@ + jstr(x.display@) + ",\"is_array\":"@ + jbool(x.is_array) + ",\"schema_name\":"@ + jstr(x.schema_name@) + ",\"is_composite\":"@ + jbool(x.is_composite) + ",\"array_dimensions\":"@ + int_digits(x.array_dimensions as int) + "}"@
}

/// The JSON form of one column: identity and type.
pub open spec fn column_j_a(x: Column) -> Seq<char> {
    "{\"name\":"@ + jstr(x.name@) + ",\"type\":"@ + column_type_j(x.type_field)
        + ",\"default\":"@ + jopt_str(x.default) + ",\"is_unique\":"@ + jbool(x.is_unique)
}

/// The JSON form of one column: nullability and key flags.
pub open spec fn column_j_b(x: Column) -> Seq<char> {
    ",\"is_nullable\":"@ + jbool(x.is_nullable) + ",\"is_foreign_key\":"@ + jbool(
        x.is_foreign_key,
    )
}

/// The JSON form of one column: the foreign-key linkage.
pub open spec fn column_j_c(x: Column) -> Seq<char> {
    ",\"is_primary_key\":"@ + jbool(x.is_primary_key) + ",\"foreign_table_name\":"@
        + jopt_str(x.foreign_table_name) + ",\"foreign_table_schema\":"@ + jopt_str(
        x.foreign_table_schema,
    ) + "}"@
}

/// The JSON form of one column.
pub open spec fn column_j(x: Column) -> Seq<char> {
    column_j_a(x) + column_j_b(x) + column_j_c(x)
}

/// A JSON array of values, in order.
pub open spec fn column_items(s: Seq<Column>) -> Seq<char>
    decreases s.len(),
{
    if s.len() == 0 {
        Seq::empty()
    } else if s.len() == 1 {
        column_j(s[0])
    } else {
        column_items(s.drop_last()) + ","@ + column_j(s.last())
    }
}

pub open spec fn column_arr(s: Seq<Column>) -> Seq<char> {
    "["@ + column_items(s) + "]"@
}

/// The JSON form of one record.
pub open spec fn record_j(x: Record) -> Seq<char> {
    "{\"kind\":"@ + jstr(x.kind@) + ",\"name\":"@ + jstr(x.name@) + ",\"columns\":"@ + column_arr(x.columns@) + "}"@
}

/// The JSON form of one enum.
pub open spec fn enum_def_j(x: Enum) -> Seq<char> {
    "{\"name\":"@ + jstr(x.name@) + ",\"values\":"@ + strs_arr(x.values.deep_view()) + "}"@
}

/// A JSON array of values, in order.
pub open spec fn enum_def_items(s: Seq<Enum>) -> Seq<char>
    decreases s.len(),
{
    if s.len() == 0 {
        Seq::empty()
    } else if s.len() == 1 {
        enum_def_j(s[0])
    } else {
        enum_def_items(s.drop_last()) + ","@ + enum_def_j(s.last())
    }
}

pub open spec fn enum_def_arr(s: Seq<Enum>) -> Seq<char> {
    "["@ + enum_def_items(s) + "]"@
}

/// The JSON form of one model field.
pub open spec fn model_field_j(x: ModelField) -> Seq<char> {
    "{\"name\":"@ + jstr(x.name@) + ",\"type\":"@ + jstr(display_of(x.ty@)) + ",\"default_value\":"@ + jopt_str(x.default_value) + "}"@
}

/// A JSON array of values, in order.
pub open spec fn model_field_items(s: Seq<ModelField>) -> Seq<char>
    decreases s.len(),
{
    if s.len() == 0 {
        Seq::empty()
    } else if s.len() == 1 {
        model_field_j(s[0])
    } else {
        model_field_items(s.drop_last()) + ","@ + model_field_j(s.last())
    }
}

pub open spec fn model_field_arr(s: Seq<ModelField>) -> Seq<char> {
    "["@ + model_field_items(s) + "]"@
}

/// The JSON form of one model.
pub open spec fn model_j(x: Model) -> Seq<char> {
    "{\"record\":"@ + record_j(x.record) + ",\"module_name\":"@ + jstr(x.module_name@) + ",\"name\":"@ + jstr(x.name@) + ",\"fields\":"@ + model_field_arr(x.fields@) + "}"@
}

/// A JSON array of values, in order.
pub open spec fn model_items(s: Seq<Model>) -> Seq<char>
    decreases s.len(),
{
    if s.len() == 0 {
        Seq::empty()
    } else if s.len() == 1 {
        model_j(s[0])
    } else {
        model_items(s.drop_last()) + ","@ + model_j(s.last())
    }
}

pub open spec fn model_arr(s: Seq<Model>) -> Seq<char> {
    "["@ + model_items(s) + "]"@
}

/// The JSON form of one model module.
pub open spec fn model_module_j(x: ModelModule) -> Seq<char> {
    "{\"name\":"@ + jstr(x.name@) + ",\"models\":"@ + model_arr(x.models@) + ",\"enums\":"@ + enum_def_arr(x.enums@) + "}"@
}

/// A JSON object from a key/value entry list, in entry order.
pub open spec fn model_module_oitems(s: Seq<(String, ModelModule)>) -> Seq<char>
    decreases s.len(),
{
    if s.len() == 0 {
        Seq::empty()
    } else if s.len() == 1 {
        jstr(s[0].0@) + ":"@ + model_module_j(s[0].1)
    } else {
        model_module_oitems(s.drop_last()) + ","@ + jstr(s.last().0@) + ":"@ + model_module_j(s.last().1)
    }
}

pub open spec fn model_module_obj(s: Seq<(String, ModelModule)>) -> Seq<char> {
    "{"@ + model_module_oitems(s) + "}"@
}

/// The JSON form of a raw output type reference.
pub open spec fn output_type_j(x: OutputType) -> Seq<char> {
    "{\"schema\":"@ + jstr(x.schema@) + ",\"name\":"@ + jstr(x.name@) + ",\"id\":"@ + int_digits(x.id as int) + "}"@
}

/// The JSON form of one output column.
pub open spec fn output_column_j(x: OutputColumn) -> Seq<char> {
    "{\"name\":"@ + jstr(x.name@) + ",\"type\":"@ + output_type_j(x.type_field) + "}"@
}

/// A JSON array of values, in order.
pub open spec fn output_column_items(s: Seq<OutputColumn>) -> Seq<char>
    decreases s.len(),
{
    if s.len() == 0 {
        Seq::empty()
    } else if s.len() == 1 {
        output_column_j(s[0])
    } else {
        output_column_items(s.drop_last()) + ","@ + output_column_j(s.last())
    }
}

pub open spec fn output_column_arr(s: Seq<OutputColumn>) -> Seq<char> {
    "["@ + output_column_items(s) + "]"@
}

/// The JSON form of one parameter.
pub open spec fn parameter_j(x: Parameter) -> Seq<char> {
    "{\"name\":"@ + jstr(x.name@) + ",\"type\":"@ + output_type_j(x.type_field) + ",\"not_null\":"@ + jbool(x.not_null) + "}"@
}

/// A JSON array of values, in order.
pub open spec fn parameter_items(s: Seq<Parameter>) -> Seq<char>
    decreases s.len(),
{
    if s.len() == 0 {
        Seq::empty()
    } else if s.len() == 1 {
        parameter_j(s[0])
    } else {
        parameter_items(s.drop_last()) + ","@ + parameter_j(s.last())
    }
}

pub open spec fn parameter_arr(s: Seq<Parameter>) -> Seq<char> {
    "["@ + parameter_items(s) + "]"@
}

/// The JSON form of one annotation.
pub open spec fn annotation_j(x: Annotation) -> Seq<char> {
    "{\"value\":"@ + jopt_str(x.value) + ",\"line\":"@ + int_digits(x.line as int) + "}"@
}

/// A JSON object from a key/value entry list, in entry order.
pub open spec fn annotation_oitems(s: Seq<(String, Annotation)>) -> Seq<char>
    decreases s.len(),
{
    if s.len() == 0 {
        Seq::empty()
    } else if s.len() == 1 {
        jstr(s[0].0@) + ":"@ + annotation_j(s[0].1)
    } else {
        annotation_oitems(s.drop_last()) + ","@ + jstr(s.last().0@) + ":"@ + annotation_j(s.last().1)
    }
}

pub open spec fn annotation_obj(s: Seq<(String, Annotation)>) -> Seq<char> {
    "{"@ + annotation_oitems(s) + "}"@
}

/// The JSON form of one query.
pub open spec fn query_j(x: Query) -> Seq<char> {
    "{\"query\":"@ + jstr(x.query@) + ",\"name\":"@ + jstr(x.name@) + ",\"command\":"@ + jstr(x.command@) + ",\"path\":"@ + jstr(x.path@) + ",\"annotations\":"@ + annotation_obj(x.annotations@) + ",\"output\":"@ + output_column_arr(x.output@) + ",\"parameters\":"@ + parameter_arr(x.parameters@) + "}"@
}

/// A JSON object from a key/value entry list, in entry order.
pub open spec fn type_json_oitems(s: Seq<(String, Type)>) -> Seq<char>
    decreases s.len(),
{
    if s.len() == 0 {
        Seq::empty()
    } else if s.len() == 1 {
        jstr(s[0].0@) + ":"@ + type_json_j(s[0].1)
    } else {
        type_json_oitems(s.drop_last()) + ","@ + jstr(s.last().0@) + ":"@ + type_json_j(s.last().1)
    }
}

pub open spec fn type_json_obj(s: Seq<(String, Type)>) -> Seq<char> {
    "{"@ + type_json_oitems(s) + "}"@
}

/// The JSON form of one synthetic composite model.
pub open spec fn method_model_j(x: MethodModel) -> Seq<char> {
    "{\"type\":"@ + jstr(display_of(x.ty@)) + ",\"fields\":"@ + type_json_obj(x.fields@) + "}"@
}

/// A JSON object from a key/value entry list, in entry order.
pub open spec fn method_model_oitems(s: Seq<(String, MethodModel)>) -> Seq<char>
    decreases s.len(),
{
    if s.len() == 0 {
        Seq::empty()
    } else if s.len() == 1 {
        jstr(s[0].0@) + ":"@ + method_model_j(s[0].1)
    } else {
        method_model_oitems(s.drop_last()) + ","@ + jstr(s.last().0@) + ":"@ + method_model_j(s.last().1)
    }
}

pub open spec fn method_model_obj(s: Seq<(String, MethodModel)>) -> Seq<char> {
    "{"@ + method_model_oitems(s) + "}"@
}

/// Appends the JSON form of one value to `out`.
#[verifier::rlimit(50)]
pub fn column_type_into(out: &mut String, x: &ColumnType)
    ensures
        final(out)@ == old(out)@ + column_type_j(*x),
{
    out.append("{\"name\":");
    jstr_into(out, x.name.as_str());
    proof {
        assert(out@ =~= old(out)@ + ("{\"name\":"@ + jstr(x.name@)));
    }
    out.append(",\"display\":");
    jstr_into(out, x.display.as_str());
    proof {
        assert(out@ =~= old(out)@ + ("{\"name\":"@ + jstr(x.name@) + ",\"display\":"@ + jstr(x.display@)));
    }
    out.append(",\"is_array\":");
    jbool_into(out, x.is_array);
    proof {
        assert(out@ =~= old(out)@ + ("{\"name\":"@ + jstr(x.name@) + ",\"display\":"@ + jstr(x.display@) + ",\"is_array\":"@ + jbool(x.is_array)));
    }
    out.append(",\"schema_name\":");
    jstr_into(out, x.schema_name.as_str());
    proof {
        assert(out@ =~= old(out)@ + ("{\"name\":"@ + jstr(x.name@) + ",\"display\":"@ + jstr(x.display@) + ",\"is_array\":"@ + jbool(x.is_array) + ",\"schema_name\":"@ + jstr(x.schema_name@)));
    }
    out.append(",\"is_composite\":");
    jbool_into(out, x.is_composite);
    proof {
        assert(out@ =~= old(out)@ + ("{\"name\":"@ + jstr(x.name@) + ",\"display\":"@ + jstr(x.display@) + ",\"is_array\":"@ + jbool(x.is_array) + ",\"schema_name\":"@ + jstr(x.schema_name@) + ",\"is_composite\":"@ + jbool(x.is_composite)));
    }
    out.append(",\"array_dimensions\":");
    jint_into(out, x.array_dimensions);
    proof {
        assert(out@ =~= old(out)@ + ("{\"name\":"@ + jstr(x.name@) + ",\"display\":"@ + jstr(x.display@) + ",\"is_array\":"@ + jbool(x.is_array) + ",\"schema_name\":"@ + jstr(x.schema_name@) + ",\"is_composite\":"@ + jbool(x.is_composite) + ",\"array_dimensions\":"@ + int_digits(x.array_dimensions as int)));
    }
    out.append("}");
    proof {
        assert(out@ =~= old(out)@ + column_type_j(*x));
    }
}

fn column_head_into(out: &mut String, x: &Column)
    ensures
        final(out)@ == old(out)@ + column_j_a(*x),
{
    out.append("{\"name\":");
    jstr_into(out, x.name.as_str());
    out.append(",\"type\":");
    column_type_into(out, &x.type_field);
    proof {
        assert(out@ =~= old(out)@ + ("{\"name\":"@ + jstr(x.name@) + ",\"type\":"@
            + column_type_j(x.type_field)));
    }
    out.append(",\"default\":");
    jopt_str_into(out, &x.default);
    out.append(",\"is_unique\":");
    jbool_into(out, x.is_unique);
    proof {
        assert(out@ =~= old(out)@ + column_j_a(*x));
    }
}

fn column_mid_into(out: &mut String, x: &Column)
    ensures
        final(out)@ == old(out)@ + column_j_b(*x),
{
    out.append(",\"is_nullable\":");
    jbool_into(out, x.is_nullable);
    out.append(",\"is_foreign_key\":");
    jbool_into(out, x.is_foreign_key);
    proof {
        assert(out@ =~= old(out)@ + column_j_b(*x));
    }
}

fn column_tail_into(out: &mut String, x: &Column)
    ensures
        final(out)@ == old(out)@ + column_j_c(*x),
{
    out.append(",\"is_primary_key\":");
    jbool_into(out, x.is_primary_key);
    out.append(",\"foreign_table_name\":");
    jopt_str_into(out, &x.foreign_table_name);
    proof {
        assert(out@ =~= old(out)@ + (",\"is_primary_key\":"@ + jbool(x.is_primary_key)
            + ",\"foreign_table_name\":"@ + jopt_str(x.foreign_table_name)));
    }
    out.append(",\"foreign_table_schema\":");
    jopt_str_into(out, &x.foreign_table_schema);
    out.append("}");
    proof {
        assert(out@ =~= old(out)@ + column_j_c(*x));
    }
}

/// Appends the JSON form of one column to `out`.
pub fn column_into(out: &mut String, x: &Column)
    ensures
        final(out)@ == old(out)@ + column_j(*x),
{
    column_head_into(out, x);
    column_mid_into(out, x);
    column_tail_into(out, x);
    proof {
        assert(out@ =~= old(out)@ + column_j(*x));
    }
}

/// Appends a JSON array of values to `out`.
#[verifier::rlimit(50)]
pub fn column_arr_into(out: &mut String, v: &Vec<Column>)
    ensures
        final(out)@ == old(out)@ + column_arr(v@),
{
    out.append("[");
    let mut i: usize = 0;
    proof {
        assert(v@.take(0) =~= Seq::<Column>::empty());
        assert(out@ =~= old(out)@ + "["@ + column_items(v@.take(0)));
    }
    while i < v.len()
        invariant
            i <= v@.len(),
            out@ == old(out)@ + "["@ + column_items(v@.take(i as int)),
        decreases v@.len() - i,
    {
        proof {
            assert(v@.take(i + 1).drop_last() =~= v@.take(i as int));
            assert(v@.take(i + 1).last() == v@[i as int]);
        }
        if i > 0 {
            out.append(",");
        }
        column_into(out, &v[i]);
        proof {
            if i == 0 {
                assert(out@ =~= old(out)@ + "["@ + column_items(v@.take(1)));
            } else {
                assert(out@ =~= old(out)@ + "["@ + column_items(v@.take(i + 1)));
            }
        }
        i = i + 1;
    }
    proof {
        assert(v@.take(v@.len() as int) =~= v@);
    }
    out.append("]");
    proof {
        assert(out@ =~= old(out)@ + column_arr(v@));
    }
}

/// Appends the JSON form of one value to `out`.
#[verifier::rlimit(50)]
pub fn record_into(out: &mut String, x: &Record)
    ensures
        final(out)@ == old(out)@ + record_j(*x),
{
    out.append("{\"kind\":");
    jstr_into(out, x.kind.as_str());
    proof {
        assert(out@ =~= old(out)@ + ("{\"kind\":"@ + jstr(x.kind@)));
    }
    out.append(",\"name\":");
    jstr_into(out, x.name.as_str());
    proof {
        assert(out@ =~= old(out)@ + ("{\"kind\":"@ + jstr(x.kind@) + ",\"name\":"@ + jstr(x.name@)));
    }
    out.append(",\"columns\":");
    column_arr_into(out, &x.columns);
    proof {
        assert(out@ =~= old(out)@ + ("{\"kind\":"@ + jstr(x.kind@) + ",\"name\":"@ + jstr(x.name@) + ",\"columns\":"@ + column_arr(x.columns@)));
    }
    out.append("}");
    proof {
        assert(out@ =~= old(out)@ + record_j(*x));
    }
}

/// Appends the JSON form of one value to `out`.
#[verifier::rlimit(50)]
pub fn enum_def_into(out: &mut String, x: &Enum)
    ensures
        final(out)@ == old(out)@ + enum_def_j(*x),
{
    out.append("{\"name\":");
    jstr_into(out, x.name.as_str());
    proof {
        assert(out@ =~= old(out)@ + ("{\"name\":"@ + jstr(x.name@)));
    }
    out.append(",\"values\":");
    strs_arr_into(out, &x.values);
    proof {
        assert(out@ =~= old(out)@ + ("{\"name\":"@ + jstr(x.name@) + ",\"values\":"@ + strs_arr(x.values.deep_view())));
    }
    out.append("}");
    proof {
        assert(out@ =~= old(out)@ + enum_def_j(*x));
    }
}

/// Appends a JSON array of values to `out`.
#[verifier::rlimit(50)]
pub fn enum_def_arr_into(out: &mut String, v: &Vec<Enum>)
    ensures
        final(out)@ == old(out)@ + enum_def_arr(v@),
{
    out.append("[");
    let mut i: usize = 0;
    proof {
        assert(v@.take(0) =~= Seq::<Enum>::empty());
        assert(out@ =~= old(out)@ + "["@ + enum_def_items(v@.take(0)));
    }
    while i < v.len()
        invariant
            i <= v@.len(),
            out@ == old(out)@ + "["@ + enum_def_items(v@.take(i as int)),
        decreases v@.len() - i,
    {
        proof {
            assert(v@.take(i + 1).drop_last() =~= v@.take(i as int));
            assert(v@.take(i + 1).last() == v@[i as int]);
        }
        if i > 0 {
            out.append(",");
        }
        enum_def_into(out, &v[i]);
        proof {
            if i == 0 {
                assert(out@ =~= old(out)@ + "["@ + enum_def_items(v@.take(1)));
            } else {
                assert(out@ =~= old(out)@ + "["@ + enum_def_items(v@.take(i + 1)));
            }
        }
        i = i + 1;
    }
    proof {
        assert(v@.take(v@.len() as int) =~= v@);
    }
    out.append("]");
    proof {
        assert(out@ =~= old(out)@ + enum_def_arr(v@));
    }
}

/// Appends the JSON form of one value to `out`.
#[verifier::rlimit(50)]
pub fn model_field_into(out: &mut String, x: &ModelField)
    ensures
        final(out)@ == old(out)@ + model_field_j(*x),
{
    out.append("{\"name\":");
    jstr_into(out, x.name.as_str());
    proof {
        assert(out@ =~= old(out)@ + ("{\"name\":"@ + jstr(x.name@)));
    }
    out.append(",\"type\":");
    type_json_into(out, &x.ty);
    proof {
        assert(out@ =~= old(out)@ + ("{\"name\":"@ + jstr(x.name@) + ",\"type\":"@ + jstr(display_of(x.ty@))));
    }
    out.append(",\"default_value\":");
    jopt_str_into(out, &x.default_value);
    proof {
        assert(out@ =~= old(out)@ + ("{\"name\":"@ + jstr(x.name@) + ",\"type\":"@ + jstr(display_of(x.ty@)) + ",\"default_value\":"@ + jopt_str(x.default_value)));
    }
    out.append("}");
    proof {
        assert(out@ =~= old(out)@ + model_field_j(*x));
    }
}

/// Appends a JSON array of values to `out`.
#[verifier::rlimit(50)]
pub fn model_field_arr_into(out: &mut String, v: &Vec<ModelField>)
    ensures
        final(out)@ == old(out)@ + model_field_arr(v@),
{
    out.append("[");
    let mut i: usize = 0;
    proof {
        assert(v@.take(0) =~= Seq::<ModelField>::empty());
        assert(out@ =~= old(out)@ + "["@ + model_field_items(v@.take(0)));
    }
    while i < v.len()
        invariant
            i <= v@.len(),
            out@ == old(out)@ + "["@ + model_field_items(v@.take(i as int)),
        decreases v@.len() - i,
    {
        proof {
            assert(v@.take(i + 1).drop_last() =~= v@.take(i as int));
            assert(v@.take(i + 1).last() == v@[i as int]);
        }
        if i > 0 {
            out.append(",");
        }
        model_field_into(out, &v[i]);
        proof {
            if i == 0 {
                assert(out@ =~= old(out)@ + "["@ + model_field_items(v@.take(1)));
            } else {
                assert(out@ =~= old(out)@ + "["@ + model_field_items(v@.take(i + 1)));
            }
        }
        i = i + 1;
    }
    proof {
        assert(v@.take(v@.len() as int) =~= v@);
    }
    out.append("]");
    proof {
        assert(out@ =~= old(out)@ + model_field_arr(v@));
    }
}

/// Appends the JSON form of one value to `out`.
#[verifier::rlimit(50)]
pub fn model_into(out: &mut String, x: &Model)
    ensures
        final(out)@ == old(out)@ + model_j(*x),
{
    out.append("{\"record\":");
    record_into(out, &x.record);
    proof {
        assert(out@ =~= old(out)@ + ("{\"record\":"@ + record_j(x.record)));
    }
    out.append(",\"module_name\":");
    jstr_into(out, x.module_name.as_str());
    proof {
        assert(out@ =~= old(out)@ + ("{\"record\":"@ + record_j(x.record) + ",\"module_name\":"@ + jstr(x.module_name@)));
    }
    out.append(",\"name\":");
    jstr_into(out, x.name.as_str());
    proof {
        assert(out@ =~= old(out)@ + ("{\"record\":"@ + record_j(x.record) + ",\"module_name\":"@ + jstr(x.module_name@) + ",\"name\":"@ + jstr(x.name@)));
    }
    out.append(",\"fields\":");
    model_field_arr_into(out, &x.fields);
    proof {
        assert(out@ =~= old(out)@ + ("{\"record\":"@ + record_j(x.record) + ",\"module_name\":"@ + jstr(x.module_name@) + ",\"name\":"@ + jstr(x.name@) + ",\"fields\":"@ + model_field_arr(x.fields@)));
    }
    out.append("}");
    proof {
        assert(out@ =~= old(out)@ + model_j(*x));
    }
}

/// Appends a JSON array of values to `out`.
#[verifier::rlimit(50)]
pub fn model_arr_into(out: &mut String, v: &Vec<Model>)
    ensures
        final(out)@ == old(out)@ + model_arr(v@),
{
    out.append("[");
    let mut i: usize = 0;
    proof {
        assert(v@.take(0) =~= Seq::<Model>::empty());
        assert(out@ =~= old(out)@ + "["@ + model_items(v@.take(0)));
    }
    while i < v.len()
        invariant
            i <= v@.len(),
            out@ == old(out)@ + "["@ + model_items(v@.take(i as int)),
        decreases v@.len() - i,
    {
        proof {
            assert(v@.take(i + 1).drop_last() =~= v@.take(i as int));
            assert(v@.take(i + 1).last() == v@[i as int]);
        }
        if i > 0 {
            out.append(",");
        }
        model_into(out, &v[i]);
        proof {
            if i == 0 {
                assert(out@ =~= old(out)@ + "["@ + model_items(v@.take(1)));
            } else {
                assert(out@ =~= old(out)@ + "["@ + model_items(v@.take(i + 1)));
            }
        }
        i = i + 1;
    }
    proof {
        assert(v@.take(v@.len() as int) =~= v@);
    }
    out.append("]");
    proof {
        assert(out@ =~= old(out)@ + model_arr(v@));
    }
}

/// Appends the JSON form of one value to `out`.
#[verifier::rlimit(50)]
pub fn model_module_into(out: &mut String, x: &ModelModule)
    ensures
        final(out)@ == old(out)@ + model_module_j(*x),
{
    out.append("{\"name\":");
    jstr_into(out, x.name.as_str());
    proof {
        assert(out@ =~= old(out)@ + ("{\"name\":"@ + jstr(x.name@)));
    }
    out.append(",\"models\":");
    model_arr_into(out, &x.models);
    proof {
        assert(out@ =~= old(out)@ + ("{\"name\":"@ + jstr(x.name@) + ",\"models\":"@ + model_arr(x.models@)));
    }
    out.append(",\"enums\":");
    enum_def_arr_into(out, &x.enums);
    proof {
        assert(out@ =~= old(out)@ + ("{\"name\":"@ + jstr(x.name@) + ",\"models\":"@ + model_arr(x.models@) + ",\"enums\":"@ + enum_def_arr(x.enums@)));
    }
    out.append("}");
    proof {
        assert(out@ =~= old(out)@ + model_module_j(*x));
    }
}

/// Appends a JSON object built from key/value entries to `out`.
#[verifier::rlimit(50)]
pub fn model_module_obj_into(out: &mut String, v: &Vec<(String, ModelModule)>)
    ensures
        final(out)@ == old(out)@ + model_module_obj(v@),
{
    out.append("{");
    let mut i: usize = 0;
    proof {
        assert(v@.take(0) =~= Seq::<(String, ModelModule)>::empty());
        assert(out@ =~= old(out)@ + "{"@ + model_module_oitems(v@.take(0)));
    }
    while i < v.len()
        invariant
            i <= v@.len(),
            out@ == old(out)@ + "{"@ + model_module_oitems(v@.take(i as int)),
        decreases v@.len() - i,
    {
        proof {
            assert(v@.take(i + 1).drop_last() =~= v@.take(i as int));
            assert(v@.take(i + 1).last() == v@[i as int]);
        }
        if i > 0 {
            out.append(",");
        }
        jstr_into(out, v[i].0.as_str());
        out.append(":");
        model_module_into(out, &v[i].1);
        proof {
            if i == 0 {
                assert(out@ =~= old(out)@ + "{"@ + model_module_oitems(v@.take(1)));
            } else {
                assert(out@ =~= old(out)@ + "{"@ + model_module_oitems(v@.take(i + 1)));
            }
        }
        i = i + 1;
    }
    proof {
        assert(v@.take(v@.len() as int) =~= v@);
    }
    out.append("}");
    proof {
        assert(out@ =~= old(out)@ + model_module_obj(v@));
    }
}

/// Appends the JSON form of one value to `out`.
#[verifier::rlimit(50)]
pub fn output_type_into(out: &mut String, x: &OutputType)
    ensures
        final(out)@ == old(out)@ + output_type_j(*x),
{
    out.append("{\"schema\":");
    jstr_into(out, x.schema.as_str());
    proof {
        assert(out@ =~= old(out)@ + ("{\"schema\":"@ + jstr(x.schema@)));
    }
    out.append(",\"name\":");
    jstr_into(out, x.name.as_str());
    proof {
        assert(out@ =~= old(out)@ + ("{\"schema\":"@ + jstr(x.schema@) + ",\"name\":"@ + jstr(x.name@)));
    }
    out.append(",\"id\":");
    jint_into(out, x.id);
    proof {
        assert(out@ =~= old(out)@ + ("{\"schema\":"@ + jstr(x.schema@) + ",\"name\":"@ + jstr(x.name@) + ",\"id\":"@ + int_digits(x.id as int)));
    }
    out.append("}");
    proof {
        assert(out@ =~= old(out)@ + output_type_j(*x));
    }
}

/// Appends the JSON form of one value to `out`.
#[verifier::rlimit(50)]
pub fn output_column_into(out: &mut String, x: &OutputColumn)
    ensures
        final(out)@ == old(out)@ + output_column_j(*x),
{
    out.append("{\"name\":");
    jstr_into(out, x.name.as_str());
    proof {
        assert(out@ =~= old(out)@ + ("{\"name\":"@ + jstr(x.name@)));
    }
    out.append(",\"type\":");
    output_type_into(out, &x.type_field);
    proof {
        assert(out@ =~= old(out)@ + ("{\"name\":"@ + jstr(x.name@) + ",\"type\":"@ + output_type_j(x.type_field)));
    }
    out.append("}");
    proof {
        assert(out@ =~= old(out)@ + output_column_j(*x));
    }
}

/// Appends a JSON array of values to `out`.
#[verifier::rlimit(50)]
pub fn output_column_arr_into(out: &mut String, v: &Vec<OutputColumn>)
    ensures
        final(out)@ == old(out)@ + output_column_arr(v@),
{
    out.append("[");
    let mut i: usize = 0;
    proof {
        assert(v@.take(0) =~= Seq::<OutputColumn>::empty());
        assert(out@ =~= old(out)@ + "["@ + output_column_items(v@.take(0)));
    }
    while i < v.len()
        invariant
            i <= v@.len(),
            out@ == old(out)@ + "["@ + output_column_items(v@.take(i as int)),
        decreases v@.len() - i,
    {
        proof {
            assert(v@.take(i + 1).drop_last() =~= v@.take(i as int));
            assert(v@.take(i + 1).last() == v@[i as int]);
        }
        if i > 0 {
            out.append(",");
        }
        output_column_into(out, &v[i]);
        proof {
            if i == 0 {
                assert(out@ =~= old(out)@ + "["@ + output_column_items(v@.take(1)));
            } else {
                assert(out@ =~= old(out)@ + "["@ + output_column_items(v@.take(i + 1)));
            }
        }
        i = i + 1;
    }
    proof {
        assert(v@.take(v@.len() as int) =~= v@);
    }
    out.append("]");
    proof {
        assert(out@ =~= old(out)@ + output_column_arr(v@));
    }
}

/// Appends the JSON form of one value to `out`.
#[verifier::rlimit(50)]
pub fn parameter_into(out: &mut String, x: &Parameter)
    ensures
        final(out)@ == old(out)@ + parameter_j(*x),
{
    out.append("{\"name\":");
    jstr_into(out, x.name.as_str());
    proof {
        assert(out@ =~= old(out)@ + ("{\"name\":"@ + jstr(x.name@)));
    }
    out.append(",\"type\":");
    output_type_into(out, &x.type_field);
    proof {
        assert(out@ =~= old(out)@ + ("{\"name\":"@ + jstr(x.name@) + ",\"type\":"@ + output_type_j(x.type_field)));
    }
    out.append(",\"not_null\":");
    jbool_into(out, x.not_null);
    proof {
        assert(out@ =~= old(out)@ + ("{\"name\":"@ + jstr(x.name@) + ",\"type\":"@ + output_type_j(x.type_field) + ",\"not_null\":"@ + jbool(x.not_null)));
    }
    out.append("}");
    proof {
        assert(out@ =~= old(out)@ + parameter_j(*x));
    }
}

/// Appends a JSON array of values to `out`.
#[verifier::rlimit(50)]
pub fn parameter_arr_into(out: &mut String, v: &Vec<Parameter>)
    ensures
        final(out)@ == old(out)@ + parameter_arr(v@),
{
    out.append("[");
    let mut i: usize = 0;
    proof {
        assert(v@.take(0) =~= Seq::<Parameter>::empty());
        assert(out@ =~= old(out)@ + "["@ + parameter_items(v@.take(0)));
    }
    while i < v.len()
        invariant
            i <= v@.len(),
            out@ == old(out)@ + "["@ + parameter_items(v@.take(i as int)),
        decreases v@.len() - i,
    {
        proof {
            assert(v@.take(i + 1).drop_last() =~= v@.take(i as int));
            assert(v@.take(i + 1).last() == v@[i as int]);
        }
        if i > 0 {
            out.append(",");
        }
        parameter_into(out, &v[i]);
        proof {
            if i == 0 {
                assert(out@ =~= old(out)@ + "["@ + parameter_items(v@.take(1)));
            } else {
                assert(out@ =~= old(out)@ + "["@ + parameter_items(v@.take(i + 1)));
            }
        }
        i = i + 1;
    }
    proof {
        assert(v@.take(v@.len() as int) =~= v@);
    }
    out.append("]");
    proof {
        assert(out@ =~= old(out)@ + parameter_arr(v@));
    }
}

/// Appends the JSON form of one value to `out`.
#[verifier::rlimit(50)]
pub fn annotation_into(out: &mut String, x: &Annotation)
    ensures
        final(out)@ == old(out)@ + annotation_j(*x),
{
    out.append("{\"value\":");
    jopt_str_into(out, &x.value);
    proof {
        assert(out@ =~= old(out)@ + ("{\"value\":"@ + jopt_str(x.value)));
    }
    out.append(",\"line\":");
    jint_into(out, x.line);
    proof {
        assert(out@ =~= old(out)@ + ("{\"value\":"@ + jopt_str(x.value) + ",\"line\":"@ + int_digits(x.line as int)));
    }
    out.append("}");
    proof {
        assert(out@ =~= old(out)@ + annotation_j(*x));
    }
}

/// Appends a JSON object built from key/value entries to `out`.
#[verifier::rlimit(50)]
pub fn annotation_obj_into(out: &mut String, v: &Vec<(String, Annotation)>)
    ensures
        final(out)@ == old(out)@ + annotation_obj(v@),
{
    out.append("{");
    let mut i: usize = 0;
    proof {
        assert(v@.take(0) =~= Seq::<(String, Annotation)>::empty());
        assert(out@ =~= old(out)@ + "{"@ + annotation_oitems(v@.take(0)));
    }
    while i < v.len()
        invariant
            i <= v@.len(),
            out@ == old(out)@ + "{"@ + annotation_oitems(v@.take(i as int)),
        decreases v@.len() - i,
    {
        proof {
            assert(v@.take(i + 1).drop_last() =~= v@.take(i as int));
            assert(v@.take(i + 1).last() == v@[i as int]);
        }
        if i > 0 {
            out.append(",");
        }
        jstr_into(out, v[i].0.as_str());
        out.append(":");
        annotation_into(out, &v[i].1);
        proof {
            if i == 0 {
                assert(out@ =~= old(out)@ + "{"@ + annotation_oitems(v@.take(1)));
            } else {
                assert(out@ =~= old(out)@ + "{"@ + annotation_oitems(v@.take(i + 1)));
            }
        }
        i = i + 1;
    }
    proof {
        assert(v@.take(v@.len() as int) =~= v@);
    }
    out.append("}");
    proof {
        assert(out@ =~= old(out)@ + annotation_obj(v@));
    }
}

/// Appends the JSON form of one value to `out`.
#[verifier::rlimit(50)]
pub fn query_into(out: &mut String, x: &Query)
    ensures
        final(out)@ == old(out)@ + query_j(*x),
{
    out.append("{\"query\":");
    jstr_into(out, x.query.as_str());
    proof {
        assert(out@ =~= old(out)@ + ("{\"query\":"@ + jstr(x.query@)));
    }
    out.append(",\"name\":");
    jstr_into(out, x.name.as_str());
    proof {
        assert(out@ =~= old(out)@ + ("{\"query\":"@ + jstr(x.query@) + ",\"name\":"@ + jstr(x.name@)));
    }
    out.append(",\"command\":");
    jstr_into(out, x.command.as_str());
    proof {
        assert(out@ =~= old(out)@ + ("{\"query\":"@ + jstr(x.query@) + ",\"name\":"@ + jstr(x.name@) + ",\"command\":"@ + jstr(x.command@)));
    }
    out.append(",\"path\":");
    jstr_into(out, x.path.as_str());
    proof {
        assert(out@ =~= old(out)@ + ("{\"query\":"@ + jstr(x.query@) + ",\"name\":"@ + jstr(x.name@) + ",\"command\":"@ + jstr(x.command@) + ",\"path\":"@ + jstr(x.path@)));
    }
    out.append(",\"annotations\":");
    annotation_obj_into(out, &x.annotations);
    proof {
        assert(out@ =~= old(out)@ + ("{\"query\":"@ + jstr(x.query@) + ",\"name\":"@ + jstr(x.name@) + ",\"command\":"@ + jstr(x.command@) + ",\"path\":"@ + jstr(x.path@) + ",\"annotations\":"@ + annotation_obj(x.annotations@)));
    }
    out.append(",\"output\":");
    output_column_arr_into(out, &x.output);
    proof {
        assert(out@ =~= old(out)@ + ("{\"query\":"@ + jstr(x.query@) + ",\"name\":"@ + jstr(x.name@) + ",\"command\":"@ + jstr(x.command@) + ",\"path\":"@ + jstr(x.path@) + ",\"annotations\":"@ + annotation_obj(x.annotations@) + ",\"output\":"@ + output_column_arr(x.output@)));
    }
    out.append(",\"parameters\":");
    parameter_arr_into(out, &x.parameters);
    proof {
        assert(out@ =~= old(out)@ + ("{\"query\":"@ + jstr(x.query@) + ",\"name\":"@ + jstr(x.name@) + ",\"command\":"@ + jstr(x.command@) + ",\"path\":"@ + jstr(x.path@) + ",\"annotations\":"@ + annotation_obj(x.annotations@) + ",\"output\":"@ + output_column_arr(x.output@) + ",\"parameters\":"@ + parameter_arr(x.parameters@)));
    }
    out.append("}");
    proof {
        assert(out@ =~= old(out)@ + query_j(*x));
    }
}

/// Appends a JSON object built from key/value entries to `out`.
#[verifier::rlimit(50)]
pub fn type_json_obj_into(out: &mut String, v: &Vec<(String, Type)>)
    ensures
        final(out)@ == old(out)@ + type_json_obj(v@),
{
    out.append("{");
    let mut i: usize = 0;
    proof {
        assert(v@.take(0) =~= Seq::<(String, Type)>::empty());
        assert(out@ =~= old(out)@ + "{"@ + type_json_oitems(v@.take(0)));
    }
    while i < v.len()
        invariant
            i <= v@.len(),
            out@ == old(out)@ + "{"@ + type_json_oitems(v@.take(i as int)),
        decreases v@.len() - i,
    {
        proof {
            assert(v@.take(i + 1).drop_last() =~= v@.take(i as int));
            assert(v@.take(i + 1).last() == v@[i as int]);
        }
        if i > 0 {
            out.append(",");
        }
        jstr_into(out, v[i].0.as_str());
        out.append(":");
        type_json_into(out, &v[i].1);
        proof {
            if i == 0 {
                assert(out@ =~= old(out)@ + "{"@ + type_json_oitems(v@.take(1)));
            } else {
                assert(out@ =~= old(out)@ + "{"@ + type_json_oitems(v@.take(i + 1)));
            }
        }
        i = i + 1;
    }
    proof {
        assert(v@.take(v@.len() as int) =~= v@);
    }
    out.append("}");
    proof {
        assert(out@ =~= old(out)@ + type_json_obj(v@));
    }
}

/// Appends the JSON form of one value to `out`.
#[verifier::rlimit(50)]
pub fn method_model_into(out: &mut String, x: &MethodModel)
    ensures
        final(out)@ == old(out)@ + method_model_j(*x),
{
    out.append("{\"type\":");
    type_json_into(out, &x.ty);
    proof {
        assert(out@ =~= old(out)@ + ("{\"type\":"@ + jstr(display_of(x.ty@))));
    }
    out.append(",\"fields\":");
    type_json_obj_into(out, &x.fields);
    proof {
        assert(out@ =~= old(out)@ + ("{\"type\":"@ + jstr(display_of(x.ty@)) + ",\"fields\":"@ + type_json_obj(x.fields@)));
    }
    out.append("}");
    proof {
        assert(out@ =~= old(out)@ + method_model_j(*x));
    }
}

/// Appends a JSON object built from key/value entries to `out`.
#[verifier::rlimit(50)]
pub fn method_model_obj_into(out: &mut String, v: &Vec<(String, MethodModel)>)
    ensures
        final(out)@ == old(out)@ + method_model_obj(v@),
{
    out.append("{");
    let mut i: usize = 0;
    proof {
        assert(v@.take(0) =~= Seq::<(String, MethodModel)>::empty());
        assert(out@ =~= old(out)@ + "{"@ + method_model_oitems(v@.take(0)));
    }
    while i < v.len()
        invariant
            i <= v@.len(),
            out@ == old(out)@ + "{"@ + method_model_oitems(v@.take(i as int)),
        decreases v@.len() - i,
    {
        proof {
            assert(v@.take(i + 1).drop_last() =~= v@.take(i as int));
            assert(v@.take(i + 1).last() == v@[i as int]);
        }
        if i > 0 {
            out.append(",");
        }
        jstr_into(out, v[i].0.as_str());
        out.append(":");
        method_model_into(out, &v[i].1);
        proof {
            if i == 0 {
                assert(out@ =~= old(out)@ + "{"@ + method_model_oitems(v@.take(1)));
            } else {
                assert(out@ =~= old(out)@ + "{"@ + method_model_oitems(v@.take(i + 1)));
            }
        }
        i = i + 1;
    }
    proof {
        assert(v@.take(v@.len() as int) =~= v@);
    }
    out.append("}");
    proof {
        assert(out@ =~= old(out)@ + method_model_obj(v@));
    }
}

/// A JSON array of canonical types, in order.
pub open spec fn type_json_items(s: Seq<Type>) -> Seq<char>
    decreases s.len(),
{
    if s.len() == 0 {
        Seq::empty()
    } else if s.len() == 1 {
        type_json_j(s[0])
    } else {
        type_json_items(s.drop_last()) + ","@ + type_json_j(s.last())
    }
}

pub open spec fn type_json_arr(s: Seq<Type>) -> Seq<char> {
    "["@ + type_json_items(s) + "]"@
}

/// Appends a JSON array of canonical types to `out`.
#[verifier::rlimit(50)]
pub fn type_json_arr_into(out: &mut String, v: &Vec<Type>)
    ensures
        final(out)@ == old(out)@ + type_json_arr(v@),
{
    out.append("[");
    let mut i: usize = 0;
    proof {
        assert(v@.take(0) =~= Seq::<Type>::empty());
        assert(out@ =~= old(out)@ + "["@ + type_json_items(v@.take(0)));
    }
    while i < v.len()
        invariant
            i <= v@.len(),
            out@ == old(out)@ + "["@ + type_json_items(v@.take(i as int)),
        decreases v@.len() - i,
    {
        proof {
            assert(v@.take(i + 1).drop_last() =~= v@.take(i as int));
            assert(v@.take(i + 1).last() == v@[i as int]);
        }
        if i > 0 {
            out.append(",");
        }
        type_json_into(out, &v[i]);
        proof {
            if i == 0 {
                assert(out@ =~= old(out)@ + "["@ + type_json_items(v@.take(1)));
            } else {
                assert(out@ =~= old(out)@ + "["@ + type_json_items(v@.take(i + 1)));
            }
        }
        i = i + 1;
    }
    proof {
        assert(v@.take(v@.len() as int) =~= v@);
    }
    out.append("]");
    proof {
        assert(out@ =~= old(out)@ + type_json_arr(v@));
    }
}

/// The JSON form of an optional canonical type.
pub open spec fn jopt_type(v: Option<Type>) -> Seq<char> {
    match v {
        Some(t) => type_json_j(t),
        None => "null"@,
    }
}

/// Appends an optional canonical type to `out`.
pub fn jopt_type_into(out: &mut String, v: &Option<Type>)
    ensures
        final(out)@ == old(out)@ + jopt_type(*v),
{
    match v {
        Some(t) => type_json_into(out, t),
        None => out.append("null"),
    }
}

/// The JSON form of an optional synthetic model.
pub open spec fn jopt_method_model(v: Option<MethodModel>) -> Seq<char> {
    match v {
        Some(m) => method_model_j(m),
        None => "null"@,
    }
}

/// Appends an optional synthetic model to `out`.
pub fn jopt_method_model_into(out: &mut String, v: &Option<MethodModel>)
    ensures
        final(out)@ == old(out)@ + jopt_method_model(*v),
{
    match v {
        Some(m) => method_model_into(out, m),
        None => out.append("null"),
    }
}

/// The JSON form of one method: its query and arguments.
pub open spec fn method_j_a(x: Method) -> Seq<char> {
    "{\"query\":"@ + query_j(x.query) + ",\"arguments\":"@ + type_json_obj(x.arguments@)
}

/// The JSON form of one method: models and output.
pub open spec fn method_j_b(x: Method) -> Seq<char> {
    ",\"input_models\":"@ + method_model_obj(x.input_models.entries@) + ",\"output_type\":"@
        + jopt_type(x.output_type) + ",\"output_model\":"@ + jopt_method_model(x.output_model)
        + "}"@
}

/// The JSON form of one method.
pub open spec fn method_j(x: Method) -> Seq<char> {
    method_j_a(x) + method_j_b(x)
}

fn method_head_into(out: &mut String, x: &Method)
    ensures
        final(out)@ == old(out)@ + method_j_a(*x),
{
    out.append("{\"query\":");
    query_into(out, &x.query);
    out.append(",\"arguments\":");
    type_json_obj_into(out, &x.arguments);
    proof {
        assert(out@ =~= old(out)@ + method_j_a(*x));
    }
}

fn method_tail_into(out: &mut String, x: &Method)
    ensures
        final(out)@ == old(out)@ + method_j_b(*x),
{
    out.append(",\"input_models\":");
    method_model_obj_into(out, &x.input_models.entries);
    out.append(",\"output_type\":");
    jopt_type_into(out, &x.output_type);
    proof {
        assert(out@ =~= old(out)@ + (",\"input_models\":"@ + method_model_obj(
            x.input_models.entries@,
        ) + ",\"output_type\":"@ + jopt_type(x.output_type)));
    }
    out.append(",\"output_model\":");
    jopt_method_model_into(out, &x.output_model);
    out.append("}");
    proof {
        assert(out@ =~= old(out)@ + method_j_b(*x));
    }
}

/// Appends the JSON form of one method to `out`.
pub fn method_into(out: &mut String, x: &Method)
    ensures
        final(out)@ == old(out)@ + method_j(*x),
{
    method_head_into(out, x);
    method_tail_into(out, x);
    proof {
        assert(out@ =~= old(out)@ + method_j(*x));
    }
}

/// A JSON array of methods, in order.
pub open spec fn method_items(s: Seq<Method>) -> Seq<char>
    decreases s.len(),
{
    if s.len() == 0 {
        Seq::empty()
    } else if s.len() == 1 {
        method_j(s[0])
    } else {
        method_items(s.drop_last()) + ","@ + method_j(s.last())
    }
}

pub open spec fn method_arr(s: Seq<Method>) -> Seq<char> {
    "["@ + method_items(s) + "]"@
}

/// Appends a JSON array of methods to `out`.
#[verifier::rlimit(100)]
#[verifier::spinoff_prover]
pub fn method_arr_into(out: &mut String, v: &Vec<Method>)
    ensures
        final(out)@ == old(out)@ + method_arr(v@),
{
    out.append("[");
    let mut i: usize = 0;
    proof {
        assert(v@.take(0) =~= Seq::<Method>::empty());
        assert(out@ =~= old(out)@ + "["@ + method_items(v@.take(0)));
    }
    while i < v.len()
        invariant
            i <= v@.len(),
            out@ == old(out)@ + "["@ + method_items(v@.take(i as int)),
        decreases v@.len() - i,
    {
        proof {
            assert(v@.take(i + 1).drop_last() =~= v@.take(i as int));
            assert(v@.take(i + 1).last() == v@[i as int]);
        }
        if i > 0 {
            out.append(",");
        }
        method_into(out, &v[i]);
        proof {
            if i == 0 {
                assert(out@ =~= old(out)@ + "["@ + method_items(v@.take(1)));
            } else {
                assert(out@ =~= old(out)@ + "["@ + method_items(v@.take(i + 1)));
            }
        }
        i = i + 1;
    }
    proof {
        assert(v@.take(v@.len() as int) =~= v@);
    }
    out.append("]");
    proof {
        assert(out@ =~= old(out)@ + method_arr(v@));
    }
}

/// The JSON object entries of a namespace's children, in entry order.
pub open spec fn ns_children_items(s: Seq<(String, QueryNamespace)>) -> Seq<char>
    decreases s, 0nat,
{
    if s.len() == 0 {
        Seq::empty()
    } else if s.len() == 1 {
        jstr(s[0].0@) + ":"@ + namespace_j(s[0].1)
    } else {
        ns_children_items(s.drop_last()) + ","@ + jstr(s.last().0@) + ":"@ + namespace_j(s.last().1)
    }
}

/// The JSON form of one namespace node.
pub open spec fn namespace_j(n: QueryNamespace) -> Seq<char>
    decreases n, 1nat,
{
    "{\"name\":"@ + jstr(n.name@) + ",\"subnamespaces\":{"@ + ns_children_items(
        n.subnamespaces@,
    ) + "},\"methods\":"@ + method_arr(n.methods@) + "}"@
}

/// Appends the JSON form of one namespace node to `out`.
#[verifier::rlimit(100)]
#[verifier::spinoff_prover]
pub fn namespace_into(out: &mut String, n: &QueryNamespace)
    ensures
        final(out)@ == old(out)@ + namespace_j(*n),
    decreases *n,
{
    out.append("{\"name\":");
    jstr_into(out, n.name.as_str());
    out.append(",\"subnamespaces\":{");
    let mut i: usize = 0;
    proof {
        assert(n.subnamespaces@.take(0) =~= Seq::<(String, QueryNamespace)>::empty());
        assert(out@ =~= old(out)@ + ("{\"name\":"@ + jstr(n.name@) + ",\"subnamespaces\":{"@
            + ns_children_items(n.subnamespaces@.take(0))));
    }
    while i < n.subnamespaces.len()
        invariant
            i <= n.subnamespaces@.len(),
            out@ == old(out)@ + ("{\"name\":"@ + jstr(n.name@) + ",\"subnamespaces\":{"@
                + ns_children_items(n.subnamespaces@.take(i as int))),
        decreases *n, n.subnamespaces@.len() - i,
    {
        proof {
            assert(n.subnamespaces@.take(i + 1).drop_last() =~= n.subnamespaces@.take(i as int));
            assert(n.subnamespaces@.take(i + 1).last() == n.subnamespaces@[i as int]);
        }
        if i > 0 {
            out.append(",");
        }
        jstr_into(out, n.subnamespaces[i].0.as_str());
        out.append(":");
        namespace_into(out, &n.subnamespaces[i].1);
        proof {
            if i == 0 {
                assert(out@ =~= old(out)@ + ("{\"name\":"@ + jstr(n.name@)
                    + ",\"subnamespaces\":{"@ + ns_children_items(n.subnamespaces@.take(1))));
            } else {
                assert(out@ =~= old(out)@ + ("{\"name\":"@ + jstr(n.name@)
                    + ",\"subnamespaces\":{"@ + ns_children_items(
                    n.subnamespaces@.take(i + 1),
                )));
            }
        }
        i = i + 1;
    }
    proof {
        assert(n.subnamespaces@.take(n.subnamespaces@.len() as int) =~= n.subnamespaces@);
    }
    out.append("},\"methods\":");
    method_arr_into(out, &n.methods);
    out.append("}");
    proof {
        assert(out@ =~= old(out)@ + namespace_j(*n));
    }
}

} // verus!

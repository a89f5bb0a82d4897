//! The general laws of the library, stated and proved in one place: what
//! resolution, the method builder and the argument grouping guarantee for
//! every input. Each proof function's contract is the law itself.

use vstd::prelude::*;

use crate::method::{
    columns_fields, field_of, has_record, is_dotted, method_from_query, pair_keys, pair_views,
    record_fields, record_of, row_type, spec_arguments, spec_param_type, synth_input_type, upsert,
    Method,
};
use crate::namespace::{methods_at, namespace_segments, queries_matching};
use crate::request::{Catalog, OutputColumn, Parameter, Query};
use crate::resolver::{lemma_resolve_base, spec_resolve_from_catalog};
use crate::strutil::{index_of_name, lemma_index_of_name};
use crate::ty::{wf_typev, TypeV};

verus! {

/// Resolution is a pure function of the catalog and the reference: two
/// resolutions of the same reference agree.
pub proof fn lemma_resolve_deterministic(
    cat: Catalog,
    schema: Seq<char>,
    name: Seq<char>,
    r1: TypeV,
    r2: TypeV,
)
    requires
        r1 == spec_resolve_from_catalog(cat, schema, name),
        r2 == spec_resolve_from_catalog(cat, schema, name),
    ensures
        r1 == r2,
{
}

/// A query with the `exec` command gets no output type and no output model.
pub proof fn lemma_exec_has_no_output(cat: Catalog, q: Query, m: Method)
    requires
        method_from_query(cat, q, m),
        q.command@ == "exec"@,
    ensures
        m.output_type is None,
        m.output_model is None,
{
}

/// A query with exactly one output column gets that column's resolved type
/// directly and no output model.
pub proof fn lemma_single_column_output(cat: Catalog, q: Query, m: Method)
    requires
        method_from_query(cat, q, m),
        q.command@ != "exec"@,
        q.output.len() == 1,
    ensures
        m.output_type matches Some(t) && t@ == spec_resolve_from_catalog(
            cat,
            q.output[0].type_field.schema@,
            q.output[0].type_field.name@,
        ),
        m.output_model is None,
{
}

/// A query with two or more output columns gets the synthetic row type and
/// an output model whose fields are the columns, resolved in order.
pub proof fn lemma_multi_column_output(cat: Catalog, q: Query, m: Method)
    requires
        method_from_query(cat, q, m),
        q.command@ != "exec"@,
        q.output.len() >= 2,
    ensures
        m.output_type matches Some(t) && t@ == row_type(q),
        m.output_model matches Some(om) && om.ty@ == row_type(q) && pair_views(om.fields@)
            == columns_fields(cat, q.output@),
{
}

/// With distinct column names, the output-model fields are exactly the
/// output columns in declaration order, each independently resolved.
pub proof fn lemma_output_fields_in_column_order(cat: Catalog, cols: Seq<OutputColumn>)
    requires
        forall|i: int, j: int|
            0 <= i < j < cols.len() ==> (#[trigger] cols[i]).name@ != (#[trigger] cols[j]).name@,
    ensures
        columns_fields(cat, cols).len() == cols.len(),
        forall|i: int|
            0 <= i < cols.len() ==> (#[trigger] columns_fields(cat, cols)[i]).0 == cols[i].name@
                && columns_fields(cat, cols)[i].1 == spec_resolve_from_catalog(
                cat,
                cols[i].type_field.schema@,
                cols[i].type_field.name@,
            ),
    decreases cols.len(),
{
    if cols.len() > 0 {
        let pre = cols.drop_last();
        assert forall|i: int, j: int|
            0 <= i < j < pre.len() implies (#[trigger] pre[i]).name@ != (
        #[trigger] pre[j]).name@ by {
            assert(pre[i] == cols[i]);
            assert(pre[j] == cols[j]);
        }
        lemma_output_fields_in_column_order(cat, pre);
        let prev = columns_fields(cat, pre);
        let c = cols.last();
        assert forall|k: int| 0 <= k < pair_keys(prev).len() implies #[trigger] pair_keys(
            prev,
        )[k] != c.name@ by {
            assert(pair_keys(prev)[k] == prev[k].0);
            assert(prev[k].0 == cols[k].name@);
        }
        lemma_index_of_name(pair_keys(prev), c.name@);
        assert(index_of_name(pair_keys(prev), c.name@) < 0) by {
            let f = index_of_name(pair_keys(prev), c.name@);
            if f >= 0 {
                assert(pair_keys(prev)[f] != c.name@);
            }
        }
        assert(columns_fields(cat, cols) == prev.push(
            (c.name@, spec_resolve_from_catalog(cat, c.type_field.schema@, c.type_field.name@)),
        ));
        assert forall|i: int|
            0 <= i < cols.len() implies (#[trigger] columns_fields(cat, cols)[i]).0
            == cols[i].name@ && columns_fields(cat, cols)[i].1 == spec_resolve_from_catalog(
            cat,
            cols[i].type_field.schema@,
            cols[i].type_field.name@,
        ) by {
            if i < pre.len() {
                assert(columns_fields(cat, cols)[i] == prev[i]);
                assert(pre[i] == cols[i]);
            }
        }
    }
}

/// An ordered-map insertion keeps the keys distinct.
proof fn lemma_upsert_distinct(s: Seq<(Seq<char>, TypeV)>, k: Seq<char>, v: TypeV)
    requires
        forall|i: int, j: int|
            0 <= i < j < s.len() ==> (#[trigger] s[i]).0 != (#[trigger] s[j]).0,
    ensures
        forall|i: int, j: int|
            0 <= i < j < upsert(s, k, v).len() ==> (#[trigger] upsert(s, k, v)[i]).0 != (
            #[trigger] upsert(s, k, v)[j]).0,
        forall|i: int|
            0 <= i < s.len() && s[i].0 != k ==> #[trigger] upsert(s, k, v)[i] == s[i],
        exists|i: int| 0 <= i < upsert(s, k, v).len() && (#[trigger] upsert(s, k, v)[i]).0 == k,
{
    let f = index_of_name(pair_keys(s), k);
    lemma_index_of_name(pair_keys(s), k);
    if f >= 0 {
        assert(pair_keys(s)[f] == s[f].0);
        assert(upsert(s, k, v)[f].0 == k);
        assert forall|i: int, j: int|
            0 <= i < j < upsert(s, k, v).len() implies (#[trigger] upsert(s, k, v)[i]).0 != (
        #[trigger] upsert(s, k, v)[j]).0 by {
            assert(upsert(s, k, v)[i].0 == if i == f { k } else { s[i].0 });
            assert(upsert(s, k, v)[j].0 == if j == f { k } else { s[j].0 });
            if i != f && j != f {
            } else if i == f {
                assert(s[f].0 == k);
            } else {
                assert(s[f].0 == k);
            }
        }
        assert forall|i: int|
            0 <= i < s.len() && s[i].0 != k implies #[trigger] upsert(s, k, v)[i] == s[i] by {
            assert(i != f);
        }
    } else {
        assert forall|i: int| 0 <= i < s.len() implies (#[trigger] s[i]).0 != k by {
            assert(pair_keys(s)[i] == s[i].0);
        }
        assert(upsert(s, k, v) == s.push((k, v)));
        assert(upsert(s, k, v)[s.len() as int].0 == k);
    }
}

/// The flat argument map never repeats a key: a record name mentioned by
/// many dotted parameters still gets exactly one entry.
pub proof fn lemma_arguments_distinct(cat: Catalog, q: Query, params: Seq<Parameter>)
    ensures
        forall|i: int, j: int|
            0 <= i < j < spec_arguments(cat, q, params).len() ==> (#[trigger] spec_arguments(
                cat,
                q,
                params,
            )[i]).0 != (#[trigger] spec_arguments(cat, q, params)[j]).0,
    decreases params.len(),
{
    if params.len() > 0 {
        lemma_arguments_distinct(cat, q, params.drop_last());
        let prev = spec_arguments(cat, q, params.drop_last());
        let p = params.last();
        if is_dotted(p) {
            lemma_upsert_distinct(prev, record_of(p), synth_input_type(q, record_of(p)));
        } else {
            lemma_upsert_distinct(prev, p.name@, spec_param_type(cat, p));
        }
    }
}

/// For every record prefix among the dotted parameters, the flat argument
/// map holds exactly one entry, keyed by the record name with the synthetic
/// composite type, and the input model holds the grouped fields.
pub proof fn lemma_dotted_parameters_grouped(cat: Catalog, q: Query, m: Method, rec: Seq<char>)
    requires
        method_from_query(cat, q, m),
        has_record(q.parameters@, rec),
    ensures
        m.input_models.spec_get(rec) matches Some(mm) && mm.ty@ == synth_input_type(q, rec)
            && pair_views(mm.fields@) == record_fields(cat, q.parameters@, rec),
        exists|i: int|
            0 <= i < pair_views(m.arguments@).len() && (#[trigger] pair_views(m.arguments@)[i]).0
                == rec,
        forall|i: int, j: int|
            0 <= i < j < pair_views(m.arguments@).len() ==> (#[trigger] pair_views(
                m.arguments@,
            )[i]).0 != (#[trigger] pair_views(m.arguments@)[j]).0,
{
    lemma_arguments_distinct(cat, q, q.parameters@);
    lemma_arguments_contains_record(cat, q, q.parameters@, rec);
}

/// A record mentioned by some dotted parameter appears among the argument
/// keys.
proof fn lemma_arguments_contains_record(cat: Catalog, q: Query, params: Seq<Parameter>, rec: Seq<char>)
    requires
        has_record(params, rec),
    ensures
        exists|i: int|
            0 <= i < spec_arguments(cat, q, params).len() && (#[trigger] spec_arguments(
                cat,
                q,
                params,
            )[i]).0 == rec,
    decreases params.len(),
{
    let p = params.last();
    let prev = spec_arguments(cat, q, params.drop_last());
    if is_dotted(p) && record_of(p) == rec {
        let f = index_of_name(pair_keys(prev), rec);
        lemma_index_of_name(pair_keys(prev), rec);
        if f >= 0 {
            assert(pair_keys(prev)[f] == prev[f].0);
            assert(spec_arguments(cat, q, params)[f].0 == rec);
        } else {
            assert(spec_arguments(cat, q, params)[prev.len() as int].0 == rec);
        }
    } else {
        assert(has_record(params.drop_last(), rec)) by {
            let w = choose|w: int|
                0 <= w < params.len() && is_dotted(#[trigger] params[w]) && record_of(params[w])
                    == rec;
            assert(w < params.len() - 1);
            assert(params.drop_last()[w] == params[w]);
        }
        lemma_arguments_contains_record(cat, q, params.drop_last(), rec);
        let w = choose|w: int|
            0 <= w < prev.len() && (#[trigger] prev[w]).0 == rec;
        let after = spec_arguments(cat, q, params);
        let k2 = if is_dotted(p) {
            record_of(p)
        } else {
            p.name@
        };
        let f = index_of_name(pair_keys(prev), k2);
        lemma_index_of_name(pair_keys(prev), k2);
        if f >= 0 {
            if f == w {
                assert(pair_keys(prev)[f] == prev[f].0);
                assert(after[w].0 == k2);
                assert(prev[w].0 == rec);
                assert(after[w].0 == rec);
            } else {
                assert(after[w] == prev[w]);
            }
        } else {
            assert(after[w] == prev[w]);
        }
    }
}

/// The input-model fields never repeat a suffix: each distinct dotted suffix
/// of a record contributes one field.
pub proof fn lemma_record_fields_distinct(cat: Catalog, params: Seq<Parameter>, rec: Seq<char>)
    ensures
        forall|i: int, j: int|
            0 <= i < j < record_fields(cat, params, rec).len() ==> (#[trigger] record_fields(
                cat,
                params,
                rec,
            )[i]).0 != (#[trigger] record_fields(cat, params, rec)[j]).0,
    decreases params.len(),
{
    if params.len() > 0 {
        lemma_record_fields_distinct(cat, params.drop_last(), rec);
        let prev = record_fields(cat, params.drop_last(), rec);
        let p = params.last();
        if is_dotted(p) && record_of(p) == rec {
            lemma_upsert_distinct(prev, field_of(p), spec_param_type(cat, p));
        }
    }
}

/// Every type that resolution or the builders construct is well formed:
/// nullability never nests and every array dimension is positive.
pub proof fn lemma_param_type_wf(cat: Catalog, p: Parameter)
    ensures
        wf_typev(spec_param_type(cat, p)),
        !(spec_param_type(cat, p) matches TypeV::Nullable(inner) && *inner is Nullable),
{
    lemma_resolve_base(cat, p.type_field.schema@, p.type_field.name@);
}

/// A query appears among the queries matching its own namespace segments.
proof fn lemma_query_among_matching(queries: Seq<Query>, qi: int)
    requires
        0 <= qi < queries.len(),
    ensures
        exists|j: int|
            0 <= j < queries_matching(queries, namespace_segments(queries[qi])).len()
                && #[trigger] queries_matching(queries, namespace_segments(queries[qi]))[j]
                == queries[qi],
    decreases queries.len(),
{
    let p = namespace_segments(queries[qi]);
    if qi == queries.len() - 1 {
        let prev = queries_matching(queries.drop_last(), p);
        assert(queries.last() == queries[qi]);
        assert(queries_matching(queries, p)[prev.len() as int] == queries[qi]);
    } else {
        assert(queries.drop_last()[qi] == queries[qi]);
        lemma_query_among_matching(queries.drop_last(), qi);
        let prev = queries_matching(queries.drop_last(), p);
        let j = choose|j: int| 0 <= j < prev.len() && #[trigger] prev[j] == queries[qi];
        if namespace_segments(queries.last()) == p {
            assert(queries_matching(queries, p)[j] == prev[j]);
        } else {
            assert(queries_matching(queries, p) == prev);
        }
    }
}

/// Every query's method sits at the tree node reached by resolving its
/// namespace string segment by segment from the root: among the methods of
/// that node there is one built from the query.
pub proof fn lemma_method_reached_by_namespace(
    cat: Catalog,
    queries: Seq<Query>,
    root: crate::namespace::QueryNamespace,
    qi: int,
)
    requires
        0 <= qi < queries.len(),
        forall|p: Seq<Seq<char>>|
            #[trigger] methods_at(root, p).len() == queries_matching(queries, p).len(),
        forall|p: Seq<Seq<char>>, j: int|
            #![trigger queries_matching(queries, p)[j], methods_at(root, p)[j]]
            0 <= j < queries_matching(queries, p).len() ==> method_from_query(
                cat,
                queries_matching(queries, p)[j],
                methods_at(root, p)[j],
            ),
    ensures
        exists|j: int|
            0 <= j < methods_at(root, namespace_segments(queries[qi])).len()
                && method_from_query(
                cat,
                queries[qi],
                #[trigger] methods_at(root, namespace_segments(queries[qi]))[j],
            ),
{
    let p = namespace_segments(queries[qi]);
    lemma_query_among_matching(queries, qi);
    let j = choose|j: int|
        0 <= j < queries_matching(queries, p).len() && #[trigger] queries_matching(queries, p)[j]
            == queries[qi];
    assert(method_from_query(cat, queries_matching(queries, p)[j], methods_at(root, p)[j]));
}

} // verus!

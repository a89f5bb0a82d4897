//! The method builder: one query becomes one callable method descriptor.
//! Parameters become a flat argument map; dotted parameters are grouped into
//! synthetic composite input models; the output is a bare type for a single
//! column and a synthetic row model for two or more.

use vstd::prelude::*;

use crate::namespace::{namespace_segments, spec_namespace};
use crate::ordmap::OrdMap;
use crate::request::{query_like, Catalog, OutputColumn, Parameter, Query};
use crate::resolver::{spec_resolve_from_catalog, TypeService};
use crate::strutil::{
    find_char, index_of_name, lemma_index_of_name, split_on, split_once_on, str_eq,
};
use crate::ty::{type_views, Type, TypeV};

verus! {

/// A synthetic composite type with its named fields.
pub struct MethodModel {
    pub ty: Type,
    pub fields: Vec<(String, Type)>,
}

/// One callable data-access method derived from a query.
pub struct Method {
    pub query: Query,
    pub arguments: Vec<(String, Type)>,
    pub input_models: OrdMap<MethodModel>,
    pub output_type: Option<Type>,
    pub output_model: Option<MethodModel>,
}

/// The views of a name/type pair list.
pub open spec fn pair_views(s: Seq<(String, Type)>) -> Seq<(Seq<char>, TypeV)> {
    s.map_values(|p: (String, Type)| (p.0@, p.1@))
}

/// The keys of a viewed pair list.
pub open spec fn pair_keys(s: Seq<(Seq<char>, TypeV)>) -> Seq<Seq<char>> {
    s.map_values(|p: (Seq<char>, TypeV)| p.0)
}

/// Ordered-map insertion into a pair list: an existing key keeps its
/// position and gets the new value; a new key is appended.
pub open spec fn upsert(
    s: Seq<(Seq<char>, TypeV)>,
    k: Seq<char>,
    v: TypeV,
) -> Seq<(Seq<char>, TypeV)> {
    let i = index_of_name(pair_keys(s), k);
    if i >= 0 {
        s.update(i, (k, v))
    } else {
        s.push((k, v))
    }
}

/// The resolved type of one parameter: its raw type, wrapped in `Nullable`
/// unless the parameter is marked not-null.
pub open spec fn spec_param_type(cat: Catalog, p: Parameter) -> TypeV {
    let t = spec_resolve_from_catalog(cat, p.type_field.schema@, p.type_field.name@);
    if !p.not_null {
        TypeV::Nullable(Box::new(t))
    } else {
        t
    }
}

/// Whether a parameter name is dotted, denoting a field of a composite.
pub open spec fn is_dotted(p: Parameter) -> bool {
    find_char(p.name@, '.') >= 0
}

/// The record part of a dotted parameter name.
pub open spec fn record_of(p: Parameter) -> Seq<char> {
    p.name@.take(find_char(p.name@, '.'))
}

/// The field part of a dotted parameter name.
pub open spec fn field_of(p: Parameter) -> Seq<char> {
    p.name@.skip(find_char(p.name@, '.') + 1)
}

/// The name of the synthetic composite type for record `rec` of query `q`.
pub open spec fn input_model_name(q: Query, rec: Seq<char>) -> Seq<char> {
    q.name@ + "_"@ + rec
}

/// The synthetic composite type itself, placed in the query's namespace.
pub open spec fn synth_input_type(q: Query, rec: Seq<char>) -> TypeV {
    TypeV::UserDefined { modpath: namespace_segments(q), name: input_model_name(q, rec) }
}

/// The name of the synthetic row type of query `q`.
pub open spec fn row_type_name(q: Query) -> Seq<char> {
    q.name@ + "_row"@
}

/// The synthetic row type for a query with two or more output columns.
pub open spec fn row_type(q: Query) -> TypeV {
    TypeV::UserDefined { modpath: namespace_segments(q), name: row_type_name(q) }
}

/// The flat argument map after processing `params` in order: a plain
/// parameter is stored under its own name, a dotted one under its record
/// name with the synthetic composite type.
pub open spec fn spec_arguments(cat: Catalog, q: Query, params: Seq<Parameter>) -> Seq<
    (Seq<char>, TypeV),
>
    decreases params.len(),
{
    if params.len() == 0 {
        Seq::empty()
    } else {
        let prev = spec_arguments(cat, q, params.drop_last());
        let p = params.last();
        if is_dotted(p) {
            upsert(prev, record_of(p), synth_input_type(q, record_of(p)))
        } else {
            upsert(prev, p.name@, spec_param_type(cat, p))
        }
    }
}

/// The fields of the synthetic composite for record `rec` after processing
/// `params` in order.
pub open spec fn record_fields(cat: Catalog, params: Seq<Parameter>, rec: Seq<char>) -> Seq<
    (Seq<char>, TypeV),
>
    decreases params.len(),
{
    if params.len() == 0 {
        Seq::empty()
    } else {
        let prev = record_fields(cat, params.drop_last(), rec);
        let p = params.last();
        if is_dotted(p) && record_of(p) == rec {
            upsert(prev, field_of(p), spec_param_type(cat, p))
        } else {
            prev
        }
    }
}

/// Whether some parameter is dotted with record part `rec`.
pub open spec fn has_record(params: Seq<Parameter>, rec: Seq<char>) -> bool {
    exists|i: int| 0 <= i < params.len() && is_dotted(#[trigger] params[i]) && record_of(params[i]) == rec
}

/// The output-model fields: the output columns in order, each independently
/// resolved, with a repeated column name overwriting in place.
pub open spec fn columns_fields(cat: Catalog, cols: Seq<OutputColumn>) -> Seq<(Seq<char>, TypeV)>
    decreases cols.len(),
{
    if cols.len() == 0 {
        Seq::empty()
    } else {
        let prev = columns_fields(cat, cols.drop_last());
        let c = cols.last();
        upsert(prev, c.name@, spec_resolve_from_catalog(cat, c.type_field.schema@, c.type_field.name@))
    }
}

/// Everything the method builder promises about the method built from `q`.
pub open spec fn method_from_query(cat: Catalog, q: Query, m: Method) -> bool {
    &&& query_like(m.query, q)
    &&& pair_views(m.arguments@) == spec_arguments(cat, q, q.parameters@)
    &&& m.input_models.sorted()
    &&& forall|k: Seq<char>|
        #[trigger] m.input_models.spec_contains(k) <==> has_record(q.parameters@, k)
    &&& forall|k: Seq<char>|
        has_record(q.parameters@, k) ==> (#[trigger] m.input_models.spec_get(k) matches Some(mm)
            && mm.ty@ == synth_input_type(q, k) && pair_views(mm.fields@) == record_fields(
            cat,
            q.parameters@,
            k,
        ))
    &&& (q.command@ == "exec"@ || q.output.len() == 0) ==> (m.output_type is None
        && m.output_model is None)
    &&& (q.command@ != "exec"@ && q.output.len() == 1) ==> (m.output_type matches Some(t) && t@
        == spec_resolve_from_catalog(
        cat,
        q.output[0].type_field.schema@,
        q.output[0].type_field.name@,
    ) && m.output_model is None)
    &&& (q.command@ != "exec"@ && q.output.len() >= 2) ==> (m.output_type matches Some(t) && t@
        == row_type(q) && (m.output_model matches Some(om) && om.ty@ == row_type(q) && pair_views(
        om.fields@,
    ) == columns_fields(cat, q.output@)))
}


/// The field types of a synthetic model, in field order.
pub open spec fn mm_field_types(m: MethodModel) -> Seq<TypeV> {
    m.fields@.map_values(|p: (String, Type)| p.1@)
}

/// The field types of a list of synthetic models, concatenated in order.
pub open spec fn input_models_types(entries: Seq<(String, MethodModel)>) -> Seq<TypeV>
    decreases entries.len(),
{
    if entries.len() == 0 {
        Seq::empty()
    } else {
        input_models_types(entries.drop_last()) + mm_field_types(entries.last().1)
    }
}

/// Every type a method mentions: input-model fields, output-model fields,
/// then argument types, in that order.
pub open spec fn method_types(m: Method) -> Seq<TypeV> {
    input_models_types(m.input_models.entries@) + (match m.output_model {
        Some(om) => mm_field_types(om),
        None => Seq::empty(),
    }) + m.arguments@.map_values(|p: (String, Type)| p.1@)
}

impl Method {
    /// The types this method mentions, in a fixed traversal order.
    pub fn used_types(&self) -> (r: Vec<Type>)
        ensures
            type_views(r@) == method_types(*self),
    {
        let mut all: Vec<Type> = Vec::new();
        let mut mi: usize = 0;
        proof {
            assert(self.input_models.entries@.take(0) =~= Seq::<(String, MethodModel)>::empty());
            assert(type_views(all@) =~= input_models_types(self.input_models.entries@.take(0)));
        }
        while mi < self.input_models.entries.len()
            invariant
                mi <= self.input_models.entries@.len(),
                type_views(all@) == input_models_types(self.input_models.entries@.take(mi as int)),
            decreases self.input_models.entries@.len() - mi,
        {
            let mm = &self.input_models.entries[mi].1;
            let mut fi: usize = 0;
            while fi < mm.fields.len()
                invariant
                    mi < self.input_models.entries@.len(),
                    fi <= mm.fields@.len(),
                    mm == &self.input_models.entries@[mi as int].1,
                    type_views(all@) == input_models_types(
                        self.input_models.entries@.take(mi as int),
                    ) + mm_field_types(self.input_models.entries@[mi as int].1).take(fi as int),
                decreases mm.fields@.len() - fi,
            {
                all.push(mm.fields[fi].1.clone());
                proof {
                    let a = input_models_types(self.input_models.entries@.take(mi as int));
                    let b = mm_field_types(self.input_models.entries@[mi as int].1);
                    assert(b[fi as int] == mm.fields@[fi as int].1@);
                    assert(type_views(all@) =~= (a + b.take(fi as int)).push(b[fi as int]));
                    assert(b.take(fi + 1) =~= b.take(fi as int).push(b[fi as int]));
                    assert((a + b.take(fi as int)).push(b[fi as int]) =~= a + b.take(fi + 1));
                }
                fi = fi + 1;
            }
            proof {
                assert(self.input_models.entries@.take(mi + 1).drop_last()
                    =~= self.input_models.entries@.take(mi as int));
                assert(self.input_models.entries@.take(mi + 1).last()
                    == self.input_models.entries@[mi as int]);
                assert(mm_field_types(self.input_models.entries@[mi as int].1).take(
                    mm.fields@.len() as int,
                ) =~= mm_field_types(self.input_models.entries@[mi as int].1));
            }
            mi = mi + 1;
        }
        proof {
            assert(self.input_models.entries@.take(self.input_models.entries@.len() as int)
                =~= self.input_models.entries@);
        }
        let ghost first_part = type_views(all@);
        match &self.output_model {
            Some(om) => {
                let mut fi: usize = 0;
                while fi < om.fields.len()
                    invariant
                        fi <= om.fields@.len(),
                        self.output_model matches Some(omx) && omx == *om,
                        type_views(all@) == first_part + mm_field_types(*om).take(fi as int),
                    decreases om.fields@.len() - fi,
                {
                    all.push(om.fields[fi].1.clone());
                    proof {
                        let b = mm_field_types(*om);
                        assert(b[fi as int] == om.fields@[fi as int].1@);
                        assert(type_views(all@) =~= (first_part + b.take(fi as int)).push(
                            b[fi as int],
                        ));
                        assert(b.take(fi + 1) =~= b.take(fi as int).push(b[fi as int]));
                        assert((first_part + b.take(fi as int)).push(b[fi as int]) =~= first_part
                            + b.take(fi + 1));
                    }
                    fi = fi + 1;
                }
                proof {
                    assert(mm_field_types(*om).take(om.fields@.len() as int) =~= mm_field_types(
                        *om,
                    ));
                }
            },
            None => {
                proof {
                    assert(type_views(all@) =~= first_part + Seq::<TypeV>::empty());
                }
            },
        }
        let ghost second_part = type_views(all@);
        let mut ai: usize = 0;
        proof {
            let c = self.arguments@.map_values(|p: (String, Type)| p.1@);
            assert(type_views(all@) =~= second_part + c.take(0));
        }
        while ai < self.arguments.len()
            invariant
                ai <= self.arguments@.len(),
                type_views(all@) == second_part + self.arguments@.map_values(
                    |p: (String, Type)| p.1@,
                ).take(ai as int),
            decreases self.arguments@.len() - ai,
        {
            all.push(self.arguments[ai].1.clone());
            proof {
                let c = self.arguments@.map_values(|p: (String, Type)| p.1@);
                assert(c[ai as int] == self.arguments@[ai as int].1@);
                assert(type_views(all@) =~= (second_part + c.take(ai as int)).push(c[ai as int]));
                assert(c.take(ai + 1) =~= c.take(ai as int).push(c[ai as int]));
                assert((second_part + c.take(ai as int)).push(c[ai as int]) =~= second_part
                    + c.take(ai + 1));
            }
            ai = ai + 1;
        }
        proof {
            let c = self.arguments@.map_values(|p: (String, Type)| p.1@);
            assert(c.take(self.arguments@.len() as int) =~= c);
            assert(type_views(all@) =~= method_types(*self));
        }
        all
    }
}

/// Ordered-map insertion into a name/type pair vector.
fn upsert_pair(v: &mut Vec<(String, Type)>, k: String, t: Type)
    ensures
        pair_views(final(v)@) == upsert(pair_views(old(v)@), k@, t@),
{
    let ghost orig = *v;
    let mut i: usize = 0;
    while i < v.len()
        invariant
            orig == *old(v),
            *v == orig,
            i <= v@.len(),
            forall|j: int| 0 <= j < i ==> pair_keys(pair_views(v@))[j] != k@,
        decreases v@.len() - i,
    {
        proof {
            assert(pair_keys(pair_views(v@))[i as int] == v@[i as int].0@);
        }
        if str_eq(v[i].0.as_str(), k.as_str()) {
            proof {
                lemma_index_of_name(pair_keys(pair_views(v@)), k@);
                assert(index_of_name(pair_keys(pair_views(v@)), k@) == i as int) by {
                    let f = index_of_name(pair_keys(pair_views(v@)), k@);
                    if f < 0 {
                        assert(pair_keys(pair_views(v@))[i as int] != k@);
                    } else if f < i {
                        assert(pair_keys(pair_views(v@))[f] != k@);
                    } else if f > i {
                        assert(pair_keys(pair_views(v@))[i as int] != k@);
                    }
                }
            }
            v.remove(i);
            v.insert(i, (k, t));
            proof {
                assert(pair_views(v@) =~= pair_views(orig@).update(
                    i as int,
                    (pair_views(v@)[i as int].0, pair_views(v@)[i as int].1),
                ));
                assert(pair_views(v@) =~= upsert(pair_views(orig@), k@, t@));
            }
            return ;
        }
        i = i + 1;
    }
    proof {
        lemma_index_of_name(pair_keys(pair_views(v@)), k@);
        assert(index_of_name(pair_keys(pair_views(v@)), k@) < 0) by {
            let f = index_of_name(pair_keys(pair_views(v@)), k@);
            if f >= 0 {
                assert(pair_keys(pair_views(v@))[f] != k@);
            }
        }
    }
    v.push((k, t));
    proof {
        assert(pair_views(v@) =~= upsert(pair_views(orig@), k@, t@));
    }
}

/// Builds method descriptors against one catalog.
pub struct MethodService<'a> {
    pub type_service: TypeService<'a>,
}

impl<'a> MethodService<'a> {
    pub fn new(type_service: TypeService<'a>) -> (r: Self)
        ensures
            r.type_service == type_service,
    {
        MethodService { type_service }
    }

    /// Builds the method descriptor of one query.
    pub fn build(&self, query: &Query) -> (r: Method)
        ensures
            method_from_query(*self.type_service.catalog, *query, r),
    {
        let ghost cat = *self.type_service.catalog;
        let ns = query.namespace();
        let segs: Vec<String> = if ns.as_str().unicode_len() == 0 {
            Vec::new()
        } else {
            split_on(ns.as_str(), '.')
        };
        proof {
            assert(segs.deep_view() == namespace_segments(*query));
        }
        let mut arguments: Vec<(String, Type)> = Vec::new();
        let mut input_models: OrdMap<MethodModel> = OrdMap::new();
        let mut i: usize = 0;
        proof {
            assert(query.parameters@.take(0) =~= Seq::<Parameter>::empty());
            assert(pair_views(arguments@) =~= spec_arguments(cat, *query, query.parameters@.take(0)));
        }
        while i < query.parameters.len()
            invariant
                cat == *self.type_service.catalog,
                segs.deep_view() == namespace_segments(*query),
                i <= query.parameters@.len(),
                pair_views(arguments@) == spec_arguments(
                    cat,
                    *query,
                    query.parameters@.take(i as int),
                ),
                input_models.sorted(),
                forall|k: Seq<char>|
                    #[trigger] input_models.spec_contains(k) <==> has_record(
                        query.parameters@.take(i as int),
                        k,
                    ),
                forall|k: Seq<char>|
                    has_record(query.parameters@.take(i as int), k) ==> (
                    #[trigger] input_models.spec_get(k) matches Some(mm) && mm.ty@
                        == synth_input_type(*query, k) && pair_views(mm.fields@) == record_fields(
                        cat,
                        query.parameters@.take(i as int),
                        k,
                    )),
            decreases query.parameters@.len() - i,
        {
            let ghost pre = query.parameters@.take(i as int);
            let ghost post = query.parameters@.take(i + 1);
            proof {
                assert(post.drop_last() =~= pre);
                assert(post.last() == query.parameters@[i as int]);
            }
            let p = &query.parameters[i];
            let mut t = self.type_service.resolve_from_output(&p.type_field);
            if !p.not_null {
                t = Type::Nullable(Box::new(t));
            }
            proof {
                assert(t@ == spec_param_type(cat, query.parameters@[i as int]));
            }
            match split_once_on(p.name.as_str(), '.') {
                Some((record, field)) => {
                    proof {
                        assert(is_dotted(query.parameters@[i as int]));
                        assert(record@ == record_of(query.parameters@[i as int]));
                        assert(field@ == field_of(query.parameters@[i as int]));
                    }
                    let ghost rec_k = record_of(query.parameters@[i as int]);
                    let ghost prev_models = input_models;
                    let mut mm = match input_models.remove(record.as_str()) {
                        Some(mm) => mm,
                        None => {
                            let mut nm = query.name.clone();
                            nm.append("_");
                            nm.append(record.as_str());
                            let synth = Type::UserDefined {
                                modpath: crate::strutil::clone_strings(&segs),
                                name: nm,
                            };
                            proof {
                                assert(synth@ == synth_input_type(*query, rec_k));
                                assert(pair_views(Seq::<(String, Type)>::empty())
                                    =~= Seq::<(Seq<char>, TypeV)>::empty());
                            }
                            MethodModel { ty: synth, fields: Vec::new() }
                        },
                    };
                    proof {
                        if prev_models.spec_contains(rec_k) {
                            assert(has_record(pre, rec_k));
                            assert(prev_models.spec_get(rec_k) == Some(mm));
                            assert(pair_views(mm.fields@) == record_fields(cat, pre, rec_k));
                        } else {
                            assert(!has_record(pre, rec_k));
                            assert(record_fields(cat, pre, rec_k) =~= Seq::<(Seq<char>, TypeV)>::empty()) by {
                                lemma_no_record_no_fields(cat, pre, rec_k);
                            }
                            assert(mm.fields@.len() == 0);
                            assert(pair_views(mm.fields@) =~= Seq::<(Seq<char>, TypeV)>::empty());
                        }
                        assert(mm.ty@ == synth_input_type(*query, rec_k));
                    }
                    upsert_pair(&mut mm.fields, field, t);
                    upsert_pair(&mut arguments, record.clone(), mm.ty.clone());
                    input_models.insert(record, mm);
                    proof {
                        assert forall|k: Seq<char>|
                            #[trigger] input_models.spec_contains(k) <==> has_record(post, k) by {
                            assert(input_models.spec_contains(k) == (input_models.spec_get(k)
                                is Some));
                            assert(prev_models.spec_contains(k) == (prev_models.spec_get(k)
                                is Some));
                            if k == rec_k {
                                assert(is_dotted(post[post.len() - 1]));
                                assert(has_record(post, k));
                            } else {
                                assert(has_record(post, k) == has_record(pre, k)) by {
                                    lemma_has_record_snoc(post, pre, k);
                                }
                            }
                        }
                        assert forall|k: Seq<char>|
                            has_record(post, k) implies (#[trigger] input_models.spec_get(k)
                            matches Some(mmx) && mmx.ty@ == synth_input_type(*query, k)
                            && pair_views(mmx.fields@) == record_fields(cat, post, k)) by {
                            if k == rec_k {
                                assert(record_fields(cat, post, k) == upsert(
                                    record_fields(cat, pre, k),
                                    field_of(post.last()),
                                    spec_param_type(cat, post.last()),
                                ));
                            } else {
                                assert(prev_models.spec_contains(k) == (prev_models.spec_get(k)
                                    is Some));
                                assert(has_record(post, k) == has_record(pre, k)) by {
                                    lemma_has_record_snoc(post, pre, k);
                                }
                                assert(record_fields(cat, post, k) == record_fields(cat, pre, k));
                                assert(input_models.spec_get(k) == prev_models.spec_get(k));
                            }
                        }
                        assert(pair_views(arguments@) == spec_arguments(cat, *query, post));
                    }
                },
                None => {
                    proof {
                        assert(!is_dotted(query.parameters@[i as int]));
                    }
                    upsert_pair(&mut arguments, p.name.clone(), t);
                    proof {
                        let ghost prev_models = input_models;
                        assert(pair_views(arguments@) == spec_arguments(cat, *query, post));
                        assert forall|k: Seq<char>|
                            #[trigger] input_models.spec_contains(k) <==> has_record(post, k) by {
                            assert(has_record(post, k) == has_record(pre, k)) by {
                                lemma_has_record_snoc(post, pre, k);
                            }
                        }
                        assert forall|k: Seq<char>|
                            has_record(post, k) implies (#[trigger] input_models.spec_get(k)
                            matches Some(mmx) && mmx.ty@ == synth_input_type(*query, k)
                            && pair_views(mmx.fields@) == record_fields(cat, post, k)) by {
                            assert(has_record(post, k) == has_record(pre, k)) by {
                                lemma_has_record_snoc(post, pre, k);
                            }
                            assert(record_fields(cat, post, k) == record_fields(cat, pre, k));
                        }
                    }
                },
            }
            i = i + 1;
        }
        proof {
            assert(query.parameters@.take(query.parameters@.len() as int) =~= query.parameters@);
        }
        let output_type = self.output_type(query, &segs);
        let output_model = self.output_model(query, &segs);
        Method { query: query.clone(), arguments, input_models, output_type, output_model }
    }

    fn output_type(&self, query: &Query, segs: &Vec<String>) -> (r: Option<Type>)
        requires
            segs.deep_view() == namespace_segments(*query),
        ensures
            (query.command@ == "exec"@ || query.output.len() == 0) ==> r is None,
            (query.command@ != "exec"@ && query.output.len() == 1) ==> (r matches Some(t) && t@
                == spec_resolve_from_catalog(
                *self.type_service.catalog,
                query.output[0].type_field.schema@,
                query.output[0].type_field.name@,
            )),
            (query.command@ != "exec"@ && query.output.len() >= 2) ==> (r matches Some(t) && t@
                == row_type(*query)),
    {
        if str_eq(query.command.as_str(), "exec") {
            return None;
        }
        if query.output.len() == 0 {
            return None;
        }
        if query.output.len() == 1 {
            return Some(self.type_service.resolve_from_output(&query.output[0].type_field));
        }
        let mut nm = query.name.clone();
        nm.append("_row");
        Some(Type::UserDefined { modpath: crate::strutil::clone_strings(segs), name: nm })
    }

    fn output_model(&self, query: &Query, segs: &Vec<String>) -> (r: Option<MethodModel>)
        requires
            segs.deep_view() == namespace_segments(*query),
        ensures
            (query.command@ == "exec"@ || query.output.len() < 2) ==> r is None,
            (query.command@ != "exec"@ && query.output.len() >= 2) ==> (r matches Some(om)
                && om.ty@ == row_type(*query) && pair_views(om.fields@) == columns_fields(
                *self.type_service.catalog,
                query.output@,
            )),
    {
        if query.output.len() < 2 {
            return None;
        }
        if str_eq(query.command.as_str(), "exec") {
            return None;
        }
        let mut nm = query.name.clone();
        nm.append("_row");
        let ty = Type::UserDefined { modpath: crate::strutil::clone_strings(segs), name: nm };
        let mut fields: Vec<(String, Type)> = Vec::new();
        let mut i: usize = 0;
        proof {
            assert(query.output@.take(0) =~= Seq::<OutputColumn>::empty());
            assert(pair_views(fields@) =~= columns_fields(
                *self.type_service.catalog,
                query.output@.take(0),
            ));
        }
        while i < query.output.len()
            invariant
                i <= query.output@.len(),
                pair_views(fields@) == columns_fields(
                    *self.type_service.catalog,
                    query.output@.take(i as int),
                ),
            decreases query.output@.len() - i,
        {
            proof {
                assert(query.output@.take(i + 1).drop_last() =~= query.output@.take(i as int));
                assert(query.output@.take(i + 1).last() == query.output@[i as int]);
            }
            let col = &query.output[i];
            let t = self.type_service.resolve_from_output(&col.type_field);
            upsert_pair(&mut fields, col.name.clone(), t);
            i = i + 1;
        }
        proof {
            assert(query.output@.take(query.output@.len() as int) =~= query.output@);
        }
        Some(MethodModel { ty, fields })
    }
}

/// Appending a parameter that is not dotted with record `k`, or not dotted at
/// all, leaves `has_record` for `k` unchanged.
proof fn lemma_has_record_snoc(post: Seq<Parameter>, pre: Seq<Parameter>, k: Seq<char>)
    requires
        post.len() == pre.len() + 1,
        post.drop_last() == pre,
        !(is_dotted(post.last()) && record_of(post.last()) == k),
    ensures
        has_record(post, k) == has_record(pre, k),
{
    if has_record(pre, k) {
        let w = choose|w: int|
            0 <= w < pre.len() && is_dotted(pre[w]) && record_of(pre[w]) == k;
        assert(post[w] == pre[w]);
        assert(has_record(post, k));
    }
    if has_record(post, k) {
        let w = choose|w: int|
            0 <= w < post.len() && is_dotted(post[w]) && record_of(post[w]) == k;
        assert(w < pre.len());
        assert(pre[w] == post[w]);
        assert(has_record(pre, k));
    }
}

/// A record that no parameter mentions has no fields.
proof fn lemma_no_record_no_fields(cat: Catalog, params: Seq<Parameter>, k: Seq<char>)
    requires
        !has_record(params, k),
    ensures
        record_fields(cat, params, k) == Seq::<(Seq<char>, TypeV)>::empty(),
    decreases params.len(),
{
    if params.len() > 0 {
        assert(!has_record(params.drop_last(), k)) by {
            if has_record(params.drop_last(), k) {
                let w = choose|w: int|
                    0 <= w < params.drop_last().len() && is_dotted(params.drop_last()[w])
                        && record_of(params.drop_last()[w]) == k;
                assert(params[w] == params.drop_last()[w]);
                assert(has_record(params, k));
            }
        }
        lemma_no_record_no_fields(cat, params.drop_last(), k);
        assert(!(is_dotted(params.last()) && record_of(params.last()) == k)) by {
            if is_dotted(params.last()) && record_of(params.last()) == k {
                assert(has_record(params, k));
            }
        }
    }
}

} // verus!

//! The model builder: one model module per schema, one model per record,
//! one typed field per column. Modules are keyed by schema name; a later
//! schema with the same name replaces the earlier one, mirroring ordered-map
//! insertion.

use vstd::prelude::*;

use crate::ordmap::OrdMap;
use crate::request::{
    catalog_like, enum_like, opt_str_like, record_like, Catalog, Column, Enum, Record, Schema,
};
use crate::resolver::{spec_from_column, TypeService};
use crate::ty::{spec_dedup, type_views, dedup_types, Type, TypeV};

verus! {

/// One typed field of a model.
pub struct ModelField {
    pub name: String,
    pub ty: Type,
    pub default_value: Option<String>,
}

/// One record of a schema with its resolved fields.
pub struct Model {
    pub record: Record,
    pub module_name: String,
    pub name: String,
    pub fields: Vec<ModelField>,
}

/// The models and enums of one schema.
pub struct ModelModule {
    pub name: String,
    pub models: Vec<Model>,
    pub enums: Vec<Enum>,
}

/// All model modules of a run, keyed by schema name.
pub struct ModelModules {
    pub model_modules: OrdMap<ModelModule>,
}

/// `f` is the field that `col` resolves to under `cat`.
pub open spec fn field_from_column(cat: Catalog, col: Column, f: ModelField) -> bool {
    &&& f.name@ == col.name@
    &&& f.ty@ == spec_from_column(cat, col)
    &&& opt_str_like(f.default_value, col.default)
}

/// `m` is the model built from `rec` in the module called `module_name`.
pub open spec fn model_from_record(
    cat: Catalog,
    module_name: Seq<char>,
    rec: Record,
    m: Model,
) -> bool {
    &&& record_like(m.record, rec)
    &&& m.module_name@ == module_name
    &&& m.name@ == rec.name@
    &&& m.fields.len() == rec.columns.len()
    &&& forall|i: int|
        0 <= i < rec.columns.len() ==> field_from_column(
            cat,
            rec.columns[i],
            #[trigger] m.fields[i],
        )
}

/// `m` is the module built from `schema`.
pub open spec fn module_from_schema(cat: Catalog, schema: Schema, m: ModelModule) -> bool {
    &&& m.name@ == schema.name@
    &&& m.models.len() == schema.records.len()
    &&& forall|i: int|
        0 <= i < schema.records.len() ==> model_from_record(
            cat,
            schema.name@,
            schema.records[i],
            #[trigger] m.models[i],
        )
    &&& m.enums.len() == schema.enums.len()
    &&& forall|i: int| 0 <= i < schema.enums.len() ==> enum_like(#[trigger] m.enums[i], schema.enums[i])
}

/// The last index whose schema is called `name`, or -1.
pub open spec fn last_schema_index(schemas: Seq<Schema>, name: Seq<char>) -> int
    decreases schemas.len(),
{
    if schemas.len() == 0 {
        -1
    } else if schemas.last().name@ == name {
        schemas.len() - 1
    } else {
        last_schema_index(schemas.drop_last(), name)
    }
}

pub proof fn lemma_last_schema_bound(schemas: Seq<Schema>, name: Seq<char>)
    ensures
        last_schema_index(schemas, name) < schemas.len(),
    decreases schemas.len(),
{
    if schemas.len() > 0 && schemas.last().name@ != name {
        lemma_last_schema_bound(schemas.drop_last(), name);
    }
}

/// The field types of one model, in field order.
pub open spec fn fields_types(m: Model) -> Seq<TypeV> {
    m.fields@.map_values(|f: ModelField| f.ty@)
}

/// The field types of a sequence of models, concatenated in order.
pub open spec fn models_field_types(models: Seq<Model>) -> Seq<TypeV>
    decreases models.len(),
{
    if models.len() == 0 {
        Seq::empty()
    } else {
        models_field_types(models.drop_last()) + fields_types(models.last())
    }
}

impl ModelModule {
    /// An empty module under the given name.
    pub fn new(name: &str) -> (r: Self)
        ensures
            r.name@ == name@,
            r.models@.len() == 0,
            r.enums@.len() == 0,
    {
        ModelModule { name: name.to_owned(), models: Vec::new(), enums: Vec::new() }
    }

    /// The distinct types used by the fields of this module's models, first
    /// occurrences first.
    pub fn used_types(&self) -> (r: Vec<Type>)
        ensures
            type_views(r@) == spec_dedup(models_field_types(self.models@)),
    {
        let mut all: Vec<Type> = Vec::new();
        let mut mi: usize = 0;
        proof {
            assert(self.models@.take(0) =~= Seq::<Model>::empty());
            assert(type_views(all@) =~= models_field_types(self.models@.take(0)));
        }
        while mi < self.models.len()
            invariant
                mi <= self.models@.len(),
                type_views(all@) == models_field_types(self.models@.take(mi as int)),
            decreases self.models@.len() - mi,
        {
            let model = &self.models[mi];
            let mut fi: usize = 0;
            while fi < model.fields.len()
                invariant
                    mi < self.models@.len(),
                    fi <= model.fields@.len(),
                    model == &self.models[mi as int],
                    type_views(all@) == models_field_types(self.models@.take(mi as int))
                        + fields_types(self.models@[mi as int]).take(fi as int),
                decreases model.fields@.len() - fi,
            {
                all.push(model.fields[fi].ty.clone());
                proof {
                    let a = models_field_types(self.models@.take(mi as int));
                    let b = fields_types(self.models@[mi as int]);
                    assert(b[fi as int] == model.fields@[fi as int].ty@);
                    assert(type_views(all@) =~= (a + b.take(fi as int)).push(b[fi as int]));
                    assert(b.take(fi + 1) =~= b.take(fi as int).push(b[fi as int]));
                    assert((a + b.take(fi as int)).push(b[fi as int]) =~= a + b.take(fi + 1));
                }
                fi = fi + 1;
            }
            proof {
                assert(self.models@.take(mi + 1).drop_last() =~= self.models@.take(mi as int));
                assert(self.models@.take(mi + 1).last() == self.models@[mi as int]);
                assert(fields_types(self.models@[mi as int]).take(
                    model.fields@.len() as int,
                ) =~= fields_types(self.models@[mi as int]));
            }
            mi = mi + 1;
        }
        proof {
            assert(self.models@.take(self.models@.len() as int) =~= self.models@);
        }
        dedup_types(all)
    }
}

/// Builds the model modules of one catalog.
pub struct ModelService<'a> {
    pub type_service: TypeService<'a>,
    pub catalog: &'a Catalog,
}

impl<'a> ModelService<'a> {
    fn create_model_field_from_column(&self, column: &Column) -> (r: ModelField)
        ensures
            field_from_column(*self.type_service.catalog, *column, r),
    {
        ModelField {
            name: column.name.clone(),
            ty: self.type_service.from_column(column),
            default_value: match &column.default {
                Some(d) => Some(d.clone()),
                None => None,
            },
        }
    }

    fn create_model_from_record(&self, module_name: &str, record: &Record) -> (r: Model)
        ensures
            model_from_record(*self.type_service.catalog, module_name@, *record, r),
    {
        let mut fields: Vec<ModelField> = Vec::new();
        let mut i: usize = 0;
        while i < record.columns.len()
            invariant
                i <= record.columns@.len(),
                fields@.len() == i,
                forall|j: int|
                    0 <= j < i ==> field_from_column(
                        *self.type_service.catalog,
                        record.columns[j],
                        #[trigger] fields[j],
                    ),
            decreases record.columns@.len() - i,
        {
            fields.push(self.create_model_field_from_column(&record.columns[i]));
            i = i + 1;
        }
        Model {
            record: record.clone(),
            module_name: module_name.to_owned(),
            name: record.name.clone(),
            fields,
        }
    }

    fn create_model_module(&self, schema: &Schema) -> (r: ModelModule)
        ensures
            module_from_schema(*self.type_service.catalog, *schema, r),
    {
        let mut module = ModelModule::new(schema.name.as_str());
        let mut i: usize = 0;
        while i < schema.records.len()
            invariant
                i <= schema.records@.len(),
                module.name@ == schema.name@,
                module.models@.len() == i,
                module.enums@.len() == 0,
                forall|j: int|
                    0 <= j < i ==> model_from_record(
                        *self.type_service.catalog,
                        schema.name@,
                        schema.records[j],
                        #[trigger] module.models[j],
                    ),
            decreases schema.records@.len() - i,
        {
            let model = self.create_model_from_record(schema.name.as_str(), &schema.records[i]);
            module.models.push(model);
            i = i + 1;
        }
        let mut enums: Vec<Enum> = Vec::new();
        let mut i: usize = 0;
        while i < schema.enums.len()
            invariant
                i <= schema.enums@.len(),
                enums@.len() == i,
                forall|j: int| 0 <= j < i ==> enum_like(#[trigger] enums[j], schema.enums[j]),
            decreases schema.enums@.len() - i,
        {
            enums.push(schema.enums[i].clone());
            i = i + 1;
        }
        module.enums = enums;
        module
    }

    /// One module per schema, keyed by schema name; a repeated schema name
    /// keeps only the last schema's module.
    pub fn create_model_modules(&self) -> (r: ModelModules)
        ensures
            r.model_modules.sorted(),
            forall|k: Seq<char>|
                #[trigger] r.model_modules.spec_contains(k) <==> last_schema_index(
                    self.catalog.schemas@,
                    k,
                ) >= 0,
            forall|k: Seq<char>|
                last_schema_index(self.catalog.schemas@, k) >= 0 ==> (
                #[trigger] r.model_modules.spec_get(k) matches Some(m) && module_from_schema(
                    *self.type_service.catalog,
                    self.catalog.schemas@[last_schema_index(self.catalog.schemas@, k)],
                    m,
                )),
    {
        let mut modules = ModelModules { model_modules: OrdMap::new() };
        let mut i: usize = 0;
        proof {
            assert(self.catalog.schemas@.take(0) =~= Seq::<Schema>::empty());
        }
        while i < self.catalog.schemas.len()
            invariant
                i <= self.catalog.schemas@.len(),
                modules.model_modules.sorted(),
                forall|k: Seq<char>|
                    #[trigger] modules.model_modules.spec_contains(k) <==> last_schema_index(
                        self.catalog.schemas@.take(i as int),
                        k,
                    ) >= 0,
                forall|k: Seq<char>|
                    last_schema_index(self.catalog.schemas@.take(i as int), k) >= 0 ==> (
                    #[trigger] modules.model_modules.spec_get(k) matches Some(m)
                        && module_from_schema(
                        *self.type_service.catalog,
                        self.catalog.schemas@.take(i as int)[last_schema_index(
                            self.catalog.schemas@.take(i as int),
                            k,
                        )],
                        m,
                    )),
            decreases self.catalog.schemas@.len() - i,
        {
            let schema = &self.catalog.schemas[i];
            let module = self.create_model_module(schema);
            let ghost prev = modules;
            modules.add_schema(schema.name.clone(), module);
            proof {
                let pre = self.catalog.schemas@.take(i as int);
                let post = self.catalog.schemas@.take(i + 1);
                assert(post.drop_last() =~= pre);
                assert(post.last() == self.catalog.schemas@[i as int]);
                assert forall|k: Seq<char>|
                    #[trigger] modules.model_modules.spec_contains(k) <==> last_schema_index(
                        post,
                        k,
                    ) >= 0 by {
                    assert(modules.model_modules.spec_contains(k) == (
                    modules.model_modules.spec_get(k) is Some));
                    assert(prev.model_modules.spec_contains(k) == (prev.model_modules.spec_get(
                        k,
                    ) is Some));
                    assert(prev.model_modules.spec_contains(k) <==> last_schema_index(pre, k)
                        >= 0);
                    if k == schema.name@ {
                        assert(last_schema_index(post, k) == i);
                    } else {
                        assert(modules.model_modules.spec_get(k) == prev.model_modules.spec_get(
                            k,
                        ));
                        assert(last_schema_index(post, k) == last_schema_index(pre, k));
                    }
                }
                assert forall|k: Seq<char>|
                    last_schema_index(post, k) >= 0 implies (
                    #[trigger] modules.model_modules.spec_get(k) matches Some(m)
                        && module_from_schema(
                        *self.type_service.catalog,
                        post[last_schema_index(post, k)],
                        m,
                    )) by {
                    if k == schema.name@ {
                        assert(last_schema_index(post, k) == i);
                        assert(post[i as int] == self.catalog.schemas@[i as int]);
                    } else {
                        assert(modules.model_modules.spec_get(k) == prev.model_modules.spec_get(
                            k,
                        ));
                        assert(last_schema_index(post, k) == last_schema_index(pre, k));
                        if last_schema_index(pre, k) >= 0 {
                            lemma_last_schema_bound(pre, k);
                            assert(post[last_schema_index(post, k)] == pre[last_schema_index(
                                pre,
                                k,
                            )]);
                        }
                    }
                }
            }
            i = i + 1;
        }
        proof {
            assert(self.catalog.schemas@.take(self.catalog.schemas@.len() as int)
                =~= self.catalog.schemas@);
        }
        modules
    }
}

impl ModelModules {
    /// Stores `module` under the schema name `name`, replacing any earlier
    /// module of that name.
    pub fn add_schema(&mut self, name: String, module: ModelModule)
        requires
            old(self).model_modules.sorted(),
        ensures
            final(self).model_modules.sorted(),
            final(self).model_modules.spec_get(name@) matches Some(m) && m == module,
            forall|k2: Seq<char>|
                k2 != name@ ==> #[trigger] final(self).model_modules.spec_get(k2) == old(
                    self,
                ).model_modules.spec_get(k2),
    {
        self.model_modules.insert(name, module);
    }
}

} // verus!

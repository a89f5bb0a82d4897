use codegen::method::MethodService;
use codegen::models::ModelService;
use codegen::namespace::QueryNamespaceBuilder;
use codegen::ordmap::OrdMap;
use codegen::request::{
    Annotation, Catalog, Column, ColumnType, Enum, OutputColumn, OutputType, Parameter, Query,
    Record, Schema,
};
use codegen::resolver::TypeService;
use codegen::ty::Type;

fn raw(schema: &str, name: &str) -> OutputType {
    OutputType { schema: schema.to_string(), name: name.to_string(), id: 0 }
}

fn param(name: &str, schema: &str, tyname: &str, not_null: bool) -> Parameter {
    Parameter { name: name.to_string(), type_field: raw(schema, tyname), not_null }
}

fn out_col(name: &str, schema: &str, tyname: &str) -> OutputColumn {
    OutputColumn { name: name.to_string(), type_field: raw(schema, tyname) }
}

fn column(name: &str, tyname: &str, nullable: bool) -> Column {
    Column {
        name: name.to_string(),
        type_field: ColumnType {
            name: tyname.to_string(),
            display: tyname.to_string(),
            is_array: false,
            schema_name: "pg_catalog".to_string(),
            is_composite: false,
            array_dimensions: 0,
        },
        default: None,
        is_unique: false,
        is_nullable: nullable,
        is_foreign_key: false,
        is_primary_key: false,
        foreign_table_name: None,
        foreign_table_schema: None,
    }
}

fn query(name: &str, command: &str, path: &str) -> Query {
    Query {
        query: "select 1".to_string(),
        name: name.to_string(),
        command: command.to_string(),
        path: path.to_string(),
        annotations: Vec::new(),
        output: Vec::new(),
        parameters: Vec::new(),
    }
}

fn small_catalog() -> Catalog {
    Catalog {
        schemas: vec![Schema {
            name: "public".to_string(),
            enums: vec![Enum {
                name: "mood".to_string(),
                values: vec!["happy".to_string(), "sad".to_string()],
            }],
            records: vec![Record {
                kind: "table".to_string(),
                name: "users".to_string(),
                columns: vec![column("id", "int4", false), column("bio", "text", true)],
            }],
        }],
    }
}

#[test]
fn resolver_maps_builtin_names() {
    let cat = small_catalog();
    let ts = TypeService { catalog: &cat };
    assert!(ts.resolve_from_output(&raw("pg_catalog", "int4")) == Type::Int4);
    assert!(ts.resolve_from_output(&raw("pg_catalog", "text")) == Type::Text);
}

#[test]
fn resolver_degrades_unknown_names_to_any() {
    let cat = small_catalog();
    let ts = TypeService { catalog: &cat };
    assert!(ts.resolve_from_output(&raw("pg_catalog", "no_such")) == Type::Any);
    assert!(ts.resolve_from_output(&raw("missing_schema", "foo")) == Type::Any);
    assert!(ts.resolve_from_output(&raw("public", "not_there")) == Type::Any);
}

#[test]
fn resolver_finds_records_and_enums() {
    let cat = small_catalog();
    let ts = TypeService { catalog: &cat };
    let users = ts.resolve_from_output(&raw("public", "users"));
    assert!(
        users
            == Type::UserDefined {
                modpath: vec!["models".to_string(), "public".to_string()],
                name: "users".to_string(),
            }
    );
    let mood = ts.resolve_from_output(&raw("public", "mood"));
    assert!(
        mood
            == Type::UserDefined {
                modpath: vec!["models".to_string(), "public".to_string()],
                name: "mood".to_string(),
            }
    );
}

#[test]
fn resolver_wraps_arrays_and_nullability_once() {
    let cat = small_catalog();
    let ts = TypeService { catalog: &cat };
    let mut col = column("tags", "text", true);
    col.type_field.is_array = true;
    col.type_field.array_dimensions = 2;
    let t = ts.from_column(&col);
    assert!(
        t == Type::Nullable(Box::new(Type::Array { elem: Box::new(Type::Text), dim: 2 }))
    );
    // a zero dimension count never constructs an array node
    let mut col = column("odd", "text", false);
    col.type_field.is_array = true;
    col.type_field.array_dimensions = 0;
    assert!(ts.from_column(&col) == Type::Text);
}

#[test]
fn resolver_prefers_table_backed_enums() {
    let cat = small_catalog();
    let ts = TypeService { catalog: &cat };
    let mut col = column("mood", "text", false);
    col.foreign_table_schema = Some("public".to_string());
    col.foreign_table_name = Some("mood".to_string());
    let t = ts.from_column(&col);
    assert!(
        t == Type::UserDefined {
            modpath: vec!["models".to_string(), "public".to_string()],
            name: "mood".to_string(),
        }
    );
}

#[test]
fn exec_queries_have_no_output() {
    let cat = small_catalog();
    let svc = MethodService::new(TypeService { catalog: &cat });
    let mut q = query("wipe", "exec", "queries/wipe.sql");
    q.output.push(out_col("id", "pg_catalog", "int4"));
    q.output.push(out_col("bio", "pg_catalog", "text"));
    let m = svc.build(&q);
    assert!(m.output_type.is_none());
    assert!(m.output_model.is_none());
}

#[test]
fn single_column_queries_get_the_bare_type() {
    let cat = small_catalog();
    let svc = MethodService::new(TypeService { catalog: &cat });
    let mut q = query("count_users", "one", "queries/count_users.sql");
    q.output.push(out_col("n", "pg_catalog", "int8"));
    let m = svc.build(&q);
    assert!(m.output_type == Some(Type::Int8));
    assert!(m.output_model.is_none());
}

#[test]
fn multi_column_queries_get_a_row_model() {
    let cat = small_catalog();
    let svc = MethodService::new(TypeService { catalog: &cat });
    let mut q = query("get_user", "one", "queries/get_user.sql");
    q.output.push(out_col("id", "pg_catalog", "int4"));
    q.output.push(out_col("bio", "pg_catalog", "text"));
    let m = svc.build(&q);
    let row = Type::UserDefined {
        modpath: vec!["get_user".to_string()],
        name: "get_user_row".to_string(),
    };
    assert!(m.output_type == Some(row.clone()));
    let om = m.output_model.expect("row model expected");
    assert!(om.ty == row);
    assert_eq!(om.fields.len(), 2);
    assert_eq!(om.fields[0].0, "id");
    assert!(om.fields[0].1 == Type::Int4);
    assert_eq!(om.fields[1].0, "bio");
    assert!(om.fields[1].1 == Type::Text);
}

#[test]
fn dotted_parameters_become_one_composite_argument() {
    let cat = small_catalog();
    let svc = MethodService::new(TypeService { catalog: &cat });
    let mut q = query("insert_address", "exec", "queries/insert_address.sql");
    q.parameters.push(param("address.street", "pg_catalog", "text", true));
    q.parameters.push(param("address.city", "pg_catalog", "text", true));
    let m = svc.build(&q);
    assert_eq!(m.arguments.len(), 1);
    assert_eq!(m.arguments[0].0, "address");
    let synth = Type::UserDefined {
        modpath: vec!["insert_address".to_string()],
        name: "insert_address_address".to_string(),
    };
    assert!(m.arguments[0].1 == synth);
    let mm = m.input_models.get("address").expect("input model expected");
    assert!(mm.ty == synth);
    assert_eq!(mm.fields.len(), 2);
    assert_eq!(mm.fields[0].0, "street");
    assert!(mm.fields[0].1 == Type::Text);
    assert_eq!(mm.fields[1].0, "city");
    assert!(mm.fields[1].1 == Type::Text);
}

#[test]
fn nullable_parameters_wrap_once() {
    let cat = small_catalog();
    let svc = MethodService::new(TypeService { catalog: &cat });
    let mut q = query("find", "many", "queries/find.sql");
    q.parameters.push(param("bio", "pg_catalog", "text", false));
    q.parameters.push(param("id", "pg_catalog", "int4", true));
    let m = svc.build(&q);
    assert_eq!(m.arguments.len(), 2);
    assert!(m.arguments[0].1 == Type::Nullable(Box::new(Type::Text)));
    assert!(m.arguments[1].1 == Type::Int4);
}

#[test]
fn duplicate_parameter_names_keep_one_entry() {
    let cat = small_catalog();
    let svc = MethodService::new(TypeService { catalog: &cat });
    let mut q = query("dup", "many", "queries/dup.sql");
    q.parameters.push(param("x", "pg_catalog", "text", true));
    q.parameters.push(param("x", "pg_catalog", "int4", true));
    let m = svc.build(&q);
    assert_eq!(m.arguments.len(), 1);
    assert_eq!(m.arguments[0].0, "x");
    assert!(m.arguments[0].1 == Type::Int4);
}

#[test]
fn namespace_comes_from_annotation_or_path() {
    let mut q = query("a", "one", "queries/reports/users.sql");
    assert_eq!(q.namespace(), "users");
    q.annotations.push((
        "namespace".to_string(),
        Annotation { value: Some("admin.reports".to_string()), line: 1 },
    ));
    assert_eq!(q.namespace(), "admin.reports");
    let q2 = query("b", "one", "stats.sql.sql");
    assert_eq!(q2.namespace(), "stats");
}

#[test]
fn namespace_tree_groups_queries_by_prefix() {
    let cat = small_catalog();
    let mut request = codegen::request::Request {
        catalog: cat,
        queries: Vec::new(),
        config: codegen::request::Config {
            version: "1".to_string(),
            queries: Vec::new(),
            codegen: codegen::request::Codegen {
                out: "out".to_string(),
                language: "python".to_string(),
                driver: "asyncpg".to_string(),
                types: Vec::new(),
                options: Vec::new(),
            },
        },
    };
    let mut q1 = query("list_users", "many", "queries/admin.sql");
    q1.annotations.push((
        "namespace".to_string(),
        Annotation { value: Some("admin.users".to_string()), line: 1 },
    ));
    let mut q2 = query("list_groups", "many", "queries/admin.sql");
    q2.annotations.push((
        "namespace".to_string(),
        Annotation { value: Some("admin.groups".to_string()), line: 1 },
    ));
    let mut q3 = query("more_users", "many", "queries/admin.sql");
    q3.annotations.push((
        "namespace".to_string(),
        Annotation { value: Some("admin.users".to_string()), line: 2 },
    ));
    request.queries.push(q1);
    request.queries.push(q2);
    request.queries.push(q3);
    let mut builder = QueryNamespaceBuilder::new(request);
    let root = builder.build();
    let admin = root.resolve("admin").expect("admin node");
    assert_eq!(admin.subnamespaces.len(), 2);
    assert_eq!(admin.subnamespaces[0].0, "groups");
    assert_eq!(admin.subnamespaces[1].0, "users");
    let users = root.resolve("admin.users").expect("admin.users node");
    assert_eq!(users.methods.len(), 2);
    assert_eq!(users.methods[0].query.name, "list_users");
    assert_eq!(users.methods[1].query.name, "more_users");
    let groups = root.resolve("admin.groups").expect("admin.groups node");
    assert_eq!(groups.methods.len(), 1);
    assert!(root.resolve("admin.missing").is_none());
}

#[test]
fn model_builder_resolves_every_column() {
    let cat = small_catalog();
    let svc = ModelService { type_service: TypeService { catalog: &cat }, catalog: &cat };
    let modules = svc.create_model_modules();
    assert_eq!(modules.model_modules.entries.len(), 1);
    let module = &modules.model_modules.entries[0].1;
    assert_eq!(module.name, "public");
    assert_eq!(module.models.len(), 1);
    let users = &module.models[0];
    assert_eq!(users.name, "users");
    assert_eq!(users.fields.len(), 2);
    assert!(users.fields[0].ty == Type::Int4);
    assert!(users.fields[1].ty == Type::Nullable(Box::new(Type::Text)));
    assert_eq!(module.enums.len(), 1);
    assert_eq!(module.enums[0].name, "mood");
}

#[test]
fn model_used_types_are_deduplicated() {
    let mut cat = small_catalog();
    cat.schemas[0].records[0].columns.push(column("more_text", "text", true));
    cat.schemas[0].records[0].columns.push(column("other_id", "int4", false));
    let svc = ModelService { type_service: TypeService { catalog: &cat }, catalog: &cat };
    let modules = svc.create_model_modules();
    let module = &modules.model_modules.entries[0].1;
    let used = module.used_types();
    assert_eq!(used.len(), 2);
    assert!(used[0] == Type::Int4);
    assert!(used[1] == Type::Nullable(Box::new(Type::Text)));
}

#[test]
fn ordered_map_inserts_sorted_and_overwrites() {
    let mut m: OrdMap<u32> = OrdMap::new();
    m.insert("beta".to_string(), 1);
    m.insert("alpha".to_string(), 2);
    m.insert("gamma".to_string(), 3);
    m.insert("beta".to_string(), 9);
    assert_eq!(m.len(), 3);
    assert_eq!(m.entries[0].0, "alpha");
    assert_eq!(m.entries[1].0, "beta");
    assert_eq!(m.entries[1].1, 9);
    assert_eq!(m.entries[2].0, "gamma");
    assert_eq!(m.get("beta"), Some(&9));
    assert_eq!(m.get("delta"), None);
    assert_eq!(m.remove("alpha"), Some(2));
    assert_eq!(m.len(), 2);
    assert!(!m.contains_key("alpha"));
}

#[test]
fn mock_catalog_is_well_formed() {
    let cat = codegen::mock::catalog();
    assert_eq!(cat.schemas.len(), 1);
    assert_eq!(cat.schemas[0].name, "public");
    assert_eq!(codegen::mock::enums()[0].name, "myenum");
    assert_eq!(codegen::mock::records()[0].kind, "table");
    assert_eq!(codegen::mock::schema().name, "public");
}

#[test]
fn resolution_is_deterministic() {
    let cat = small_catalog();
    let ts = TypeService { catalog: &cat };
    let a = ts.resolve_from_output(&raw("public", "users"));
    let b = ts.resolve_from_output(&raw("public", "users"));
    assert!(a == b);
    let a = ts.from_column(&column("bio", "text", true));
    let b = ts.from_column(&column("bio", "text", true));
    assert!(a == b);
}

use codegen::emit::PresentationService;
use codegen::error::Error;
use codegen::ir::IrService;
use codegen::mapping::{AsyncpgTypeMapService, TargetMapper};
use codegen::overrides::OverriddenTypeMapService;
use codegen::request::{
    Catalog, Codegen, Column, ColumnType, Config, Enum, OutputColumn, OutputType, Parameter,
    Query, Record, Request, Schema, TypeConfig,
};
use codegen::response::File;
use codegen::target::{select_target, FileGenConfig};
use codegen::ty::Type;

fn column(name: &str, tyname: &str, nullable: bool) -> Column {
    Column {
        name: name.to_string(),
        type_field: ColumnType {
            name: tyname.to_string(),
            display: tyname.to_string(),
            is_array: false,
            schema_name: "pg_catalog".to_string(),
            is_composite: false,
            array_dimensions: 0,
        },
        default: None,
        is_unique: false,
        is_nullable: nullable,
        is_foreign_key: false,
        is_primary_key: false,
        foreign_table_name: None,
        foreign_table_schema: None,
    }
}

fn codegen_block(language: &str, driver: &str, options: Vec<(String, String)>) -> Codegen {
    Codegen {
        out: "out".to_string(),
        language: language.to_string(),
        driver: driver.to_string(),
        types: Vec::new(),
        options,
    }
}

fn sample_request() -> Request {
    let catalog = Catalog {
        schemas: vec![Schema {
            name: "public".to_string(),
            enums: vec![Enum {
                name: "mood".to_string(),
                values: vec!["happy".to_string(), "sad".to_string()],
            }],
            records: vec![Record {
                kind: "table".to_string(),
                name: "users".to_string(),
                columns: vec![column("id", "int4", false), column("bio", "text", true)],
            }],
        }],
    };
    let get_user = Query {
        query: "select id, bio from users where id = $1".to_string(),
        name: "get_user".to_string(),
        command: "one".to_string(),
        path: "queries/get_user.sql".to_string(),
        annotations: Vec::new(),
        output: vec![
            OutputColumn {
                name: "id".to_string(),
                type_field: OutputType {
                    schema: "pg_catalog".to_string(),
                    name: "int4".to_string(),
                    id: 23,
                },
            },
            OutputColumn {
                name: "bio".to_string(),
                type_field: OutputType {
                    schema: "pg_catalog".to_string(),
                    name: "text".to_string(),
                    id: 25,
                },
            },
        ],
        parameters: vec![Parameter {
            name: "id".to_string(),
            type_field: OutputType {
                schema: "pg_catalog".to_string(),
                name: "int4".to_string(),
                id: 23,
            },
            not_null: true,
        }],
    };
    Request {
        catalog,
        queries: vec![get_user],
        config: Config {
            version: "1".to_string(),
            queries: Vec::new(),
            codegen: codegen_block(
                "python",
                "asyncpg",
                vec![("package".to_string(), "app".to_string())],
            ),
        },
    }
}

fn annotation_env() -> minijinja::Environment<'static> {
    let mut env = minijinja::Environment::new();
    env.add_filter("annotation", |shown: String| -> String {
        let ty = Type::from_display_form(&shown).expect("a display form");
        let module: Vec<String> = Vec::new();
        AsyncpgTypeMapService.get(&module, &ty).annotation
    });
    env
}

fn python_config() -> FileGenConfig {
    FileGenConfig {
        extension: "py".to_string(),
        directory_entrypoint: "__init__.py".to_string(),
        model_dir_entrypoint: "__init__.py".to_string(),
    }
}

#[test]
fn end_to_end_model_and_query_files() {
    let mut env = annotation_env();
    env.add_template(
        "model",
        "{% for model in model_module.models %}class {{ model.name }}:{% for f in model.fields %} {{ f.name }}:{{ f.type | annotation }};{% endfor %}{% endfor %}",
    )
    .unwrap();
    env.add_template("model_init", "init {{ this_module[1] }}").unwrap();
    env.add_template(
        "query",
        "{% for m in query_namespace.methods %}def {{ m.query.name }} -> {{ m.output_type | annotation }}:{% for item in m.output_model.fields|items %} {{ item.0 }}={{ item.1 | annotation }};{% endfor %}{% endfor %}",
    )
    .unwrap();
    let ir = IrService::new(sample_request()).build();
    let service = PresentationService { ir };
    let files = service.generate(&env, &python_config(), &Vec::new()).expect("a build");
    let paths: Vec<&str> = files.iter().map(|f| f.path.as_str()).collect();
    assert_eq!(paths, vec!["models/public.py", "/__init__.py", "get_user.py", "models/__init__.py"]);
    let model_file = &files[0];
    assert!(model_file.content.contains("class users:"));
    assert!(model_file.content.contains("id:int;"));
    assert!(model_file.content.contains("bio:str | None;"));
    let query_file = &files[2];
    assert!(query_file.content.contains("def get_user -> get_user.get_user_row:"));
    assert!(query_file.content.contains("id=int;"));
    assert!(query_file.content.contains("bio=str;"));
    assert_eq!(files[3].content, "init __init__.py");
}

#[test]
fn test_from_catalog() {
    let mut env = annotation_env();
    env.add_template("model", "module {{ model_module.name }}").unwrap();
    env.add_template("model_init", "models").unwrap();
    env.add_template("query", "{{ query_namespace.methods | length }} methods").unwrap();
    let ir = IrService::new(sample_request()).build();
    let service = PresentationService { ir };
    let files = service.generate(&env, &python_config(), &Vec::new()).unwrap();
    for f in &files {
        println!("{}: {}", f.path, f.content);
    }
}

#[test]
fn auxiliary_templates_render_with_the_whole_ir() {
    let mut env = annotation_env();
    env.add_template("model", "m").unwrap();
    env.add_template("model_init", "i").unwrap();
    env.add_template("query", "q").unwrap();
    let ir = IrService::new(sample_request()).build();
    let service = PresentationService { ir };
    let aux = vec![File {
        path: "parsers.py".to_string(),
        content: "parsers for {{ ir.query_namespace.subnamespaces | length }} namespaces"
            .to_string(),
    }];
    let files = service.generate(&env, &python_config(), &aux).unwrap();
    let parsers = files.iter().find(|f| f.path == "parsers.py").expect("aux file");
    assert_eq!(parsers.content, "parsers for 1 namespaces");
}

#[test]
fn missing_template_is_a_template_error() {
    let env = minijinja::Environment::new();
    let ir = IrService::new(sample_request()).build();
    let service = PresentationService { ir };
    match service.generate(&env, &python_config(), &Vec::new()) {
        Err(Error::TemplateError(msg)) => assert!(!msg.is_empty()),
        _ => panic!("a template error was expected"),
    }
}

#[test]
fn target_selection_by_language_and_driver() {
    let with_pkg = vec![("package".to_string(), "app".to_string())];
    match select_target(&codegen_block("python", "asyncpg", with_pkg.clone())) {
        Ok((cfg, TargetMapper::Asyncpg)) => assert_eq!(cfg.extension, "py"),
        _ => panic!("asyncpg expected"),
    }
    match select_target(&codegen_block("python", "psycopg", with_pkg.clone())) {
        Ok((_, TargetMapper::Psycopg)) => {},
        _ => panic!("psycopg expected"),
    }
    match select_target(&codegen_block("typescript", "postgres", Vec::new())) {
        Ok((cfg, TargetMapper::Typescript)) => {
            assert_eq!(cfg.extension, "ts");
            assert_eq!(cfg.directory_entrypoint, "queries.ts");
        },
        _ => panic!("typescript expected"),
    }
}

#[test]
fn unknown_targets_are_fatal() {
    match select_target(&codegen_block("python", "sqlite", Vec::new())) {
        Err(Error::UnsupportedDriver { language, driver }) => {
            assert_eq!(language, "python");
            assert_eq!(driver, "sqlite");
        },
        _ => panic!("an unsupported driver error was expected"),
    }
    match select_target(&codegen_block("cobol", "anything", Vec::new())) {
        Err(Error::NotSupportedLanguage(l)) => assert_eq!(l, "cobol"),
        _ => panic!("an unsupported language error was expected"),
    }
}

#[test]
fn python_targets_need_a_package_option() {
    match select_target(&codegen_block("python", "asyncpg", Vec::new())) {
        Err(Error::MissingConfigurationOption { language, option }) => {
            assert_eq!(language, "python");
            assert_eq!(option, "package");
            let e = Error::MissingConfigurationOption { language, option };
            assert_eq!(e.message(), "missing required option package for language python.");
        },
        _ => panic!("a missing option error was expected"),
    }
}

#[test]
fn error_messages_name_the_offender() {
    assert_eq!(
        Error::NotSupportedLanguage("cobol".to_string()).message(),
        "language cobol is not supported."
    );
    assert_eq!(
        Error::TemplateError("boom".to_string()).message(),
        "failed to render or parse a template: boom"
    );
}

#[test]
fn overrides_replace_builtin_mappings() {
    let overrides = vec![(
        "pg_catalog.int4".to_string(),
        TypeConfig {
            annotation: "MyInt".to_string(),
            import: vec!["from myints import MyInt".to_string()],
        },
    )];
    let svc = OverriddenTypeMapService::new(TargetMapper::Asyncpg, overrides);
    let module: Vec<String> = Vec::new();
    let lt = svc.get(&module, &Type::Int4);
    assert_eq!(lt.annotation, "MyInt");
    assert_eq!(lt.import, vec!["from myints import MyInt".to_string()]);
    // a type without an override delegates to the base mapping
    let lt = svc.get(&module, &Type::Text);
    assert_eq!(lt.annotation, "str");
    // a user-defined type has no canonical catalog name and also delegates
    let t = Type::UserDefined {
        modpath: vec!["models".to_string(), "public".to_string()],
        name: "users".to_string(),
    };
    assert_eq!(svc.get(&module, &t).annotation, "models.public.users");
}

#[test]
fn render_wrapper_renders_and_reports() {
    let mut env = minijinja::Environment::new();
    env.add_template("t", "hello {{ x }}").unwrap();
    let r = codegen::render::render_template(&env, "t", "{\"x\": 1}");
    assert_eq!(r, Ok("hello 1".to_string()));
    assert!(codegen::render::render_template(&env, "missing", "{}").is_err());
    assert!(codegen::render::render_template(&env, "t", "not json").is_err());
    let r = codegen::render::render_named(&env, "aux", "v={{ v }}", "{\"v\": \"ok\"}");
    assert_eq!(r, Ok("v=ok".to_string()));
}

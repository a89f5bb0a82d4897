use codegen::mapping::{
    AsyncpgTypeMapService, PsycopgTypeMapService, TypescriptTypeMapService,
};
use codegen::ty::Type;
use codegen::utils::{
    regex_replace, to_c_string, to_camel_case, to_kebab_case, to_pascal_case,
    to_screaming_snake_case, to_snake_case,
};

#[test]
fn array_is_sorted() {
    let names = Type::names();
    assert!(names.windows(2).all(|w| w[0].0 < w[1].0));
}

#[test]
fn names_table_resolves_known_entries() {
    let names = Type::names();
    assert_eq!(names.len(), 73);
    assert!(names.iter().any(|(n, t)| *n == "int4" && *t == Type::Int4));
    assert!(names.iter().any(|(n, t)| *n == "uuid" && *t == Type::Uuid));
    assert!(names.iter().any(|(n, t)| *n == "tstzrange" && *t == Type::TsTzRange));
}

#[test]
fn display_form_round_trips_leaves() {
    for (_, t) in Type::names() {
        let shown = t.to_display_form();
        let back = Type::from_display_form(shown.as_str());
        assert!(back == Some(t.clone()));
    }
}

#[test]
fn display_form_round_trips_nested_wrappers() {
    let t = Type::Nullable(Box::new(Type::Array {
        elem: Box::new(Type::UserDefined {
            modpath: vec!["models".to_string(), "public".to_string()],
            name: "users".to_string(),
        }),
        dim: 3,
    }));
    let shown = t.to_display_form();
    let back = Type::from_display_form(shown.as_str());
    assert!(back == Some(t));
}

#[test]
fn display_form_escapes_quoted_names() {
    let t = Type::Other { schema: "we\"ird".to_string(), name: "na\\me".to_string() };
    let shown = t.to_display_form();
    let back = Type::from_display_form(shown.as_str());
    assert!(back == Some(t));
}

#[test]
fn display_form_rejects_garbage() {
    assert!(Type::from_display_form("no_such_type_name").is_none());
    assert!(Type::from_display_form("").is_none());
    assert!(Type::from_display_form("?").is_none());
    assert!(Type::from_display_form("[x]int4").is_none());
}

#[test]
fn asyncpg_maps_scalars() {
    let module: Vec<String> = vec![];
    let int4 = AsyncpgTypeMapService.get(&module, &Type::Int4);
    assert_eq!(int4.annotation, "int");
    assert!(int4.import.is_empty());
    let uuid = AsyncpgTypeMapService.get(&module, &Type::Uuid);
    assert_eq!(uuid.annotation, "uuid.UUID");
    assert_eq!(uuid.import, vec!["import uuid".to_string()]);
}

#[test]
fn asyncpg_wraps_nullable_and_arrays() {
    let module: Vec<String> = vec![];
    let t = Type::Nullable(Box::new(Type::Array { elem: Box::new(Type::Int8), dim: 2 }));
    let lt = AsyncpgTypeMapService.get(&module, &t);
    assert_eq!(lt.annotation, "list[list[int]] | None");
}

#[test]
fn asyncpg_qualifies_user_defined_types() {
    let module: Vec<String> = vec![];
    let t = Type::UserDefined {
        modpath: vec!["models".to_string(), "public".to_string()],
        name: "users".to_string(),
    };
    let lt = AsyncpgTypeMapService.get(&module, &t);
    assert_eq!(lt.annotation, "models.public.users");
    assert_eq!(lt.import, vec!["import models.public".to_string()]);
    assert_eq!(lt.module.as_deref(), Some("models.public"));
    assert_eq!(lt.name.as_deref(), Some("users"));
}

#[test]
fn asyncpg_elides_same_module_references() {
    let module: Vec<String> = vec!["models".to_string(), "public".to_string()];
    let t = Type::UserDefined {
        modpath: vec!["models".to_string(), "public".to_string()],
        name: "users".to_string(),
    };
    let lt = AsyncpgTypeMapService.get(&module, &t);
    assert_eq!(lt.annotation, "users");
}

#[test]
fn psycopg_maps_ranges_its_own_way() {
    let module: Vec<String> = vec![];
    let lt = PsycopgTypeMapService.get(&module, &Type::DateRange);
    assert_eq!(lt.annotation, "psycopg.types.range.Range[datetime.date]");
    assert_eq!(
        lt.import,
        vec!["import psycopg.types.range".to_string(), "import datetime".to_string()]
    );
    // everything else falls back to the asyncpg mapping
    let lt = PsycopgTypeMapService.get(&module, &Type::Int4);
    assert_eq!(lt.annotation, "int");
}

#[test]
fn typescript_maps_scalars_and_wrappers() {
    let module: Vec<String> = vec![];
    let lt = TypescriptTypeMapService.get(&module, &Type::Int8);
    assert_eq!(lt.annotation, "bigint");
    let t = Type::Nullable(Box::new(Type::Bool));
    assert_eq!(TypescriptTypeMapService.get(&module, &t).annotation, "boolean | null");
    let t = Type::Array { elem: Box::new(Type::Text), dim: 2 };
    assert_eq!(TypescriptTypeMapService.get(&module, &t).annotation, "Array<Array<string>>");
}

#[test]
fn typescript_parser_projection() {
    let svc = TypescriptTypeMapService;
    assert!(svc.column_requires_parser(&Type::Int8));
    assert!(svc.column_requires_parser(&Type::Array { elem: Box::new(Type::Text), dim: 1 }));
    assert!(!svc.column_requires_parser(&Type::Text));
    assert_eq!(svc.type_parser(&Type::Int8), "new BigIntParser()");
    let t = Type::Array { elem: Box::new(Type::Int8), dim: 2 };
    assert_eq!(svc.type_parser(&t), "new ArrayParser(new BigIntParser()).arrayOfThis()");
    let t = Type::Nullable(Box::new(Type::Bool));
    assert_eq!(svc.type_parser(&t), "new NullParser(new BooleanParser())");
    let t = Type::UserDefined {
        modpath: vec!["models".to_string(), "public".to_string()],
        name: "user_mood".to_string(),
    };
    assert_eq!(svc.type_parser(&t), "parser.public.userMood()");
}

#[test]
fn string_case_filters() {
    assert_eq!(to_camel_case("hello_world"), "helloWorld");
    assert_eq!(to_pascal_case("hello_world"), "HelloWorld");
    assert_eq!(to_snake_case("HelloWorld"), "hello_world");
    assert_eq!(to_screaming_snake_case("helloWorld"), "HELLO_WORLD");
    assert_eq!(to_kebab_case("HelloWorld"), "hello-world");
}

#[test]
fn c_string_quotes_and_escapes() {
    assert_eq!(to_c_string("a\"b"), "\"a\\\"b\"");
    assert_eq!(to_c_string("plain"), "\"plain\"");
}

#[test]
fn regex_replace_applies_pattern() {
    assert_eq!(regex_replace("a1b2", "[0-9]", "#"), Some("a#b#".to_string()));
    assert_eq!(regex_replace("abc", "b", "X"), Some("aXc".to_string()));
    assert!(regex_replace("abc", "(", "X").is_none());
}

#[test]
fn every_mapper_covers_every_variant() {
    let module: Vec<String> = vec![];
    let mut all: Vec<Type> = Type::names().into_iter().map(|(_, t)| t).collect();
    all.push(Type::Other { schema: "s".to_string(), name: "n".to_string() });
    all.push(Type::UserDefined { modpath: vec!["m".to_string()], name: "n".to_string() });
    for t in &all {
        let wrapped = vec![
            t.clone(),
            Type::Nullable(Box::new(t.clone())),
            Type::Array { elem: Box::new(t.clone()), dim: 1 },
        ];
        for w in &wrapped {
            assert!(!AsyncpgTypeMapService.get(&module, w).annotation.is_empty());
            assert!(!PsycopgTypeMapService.get(&module, w).annotation.is_empty());
            assert!(!TypescriptTypeMapService.get(&module, w).annotation.is_empty());
            assert!(!TypescriptTypeMapService.type_parser(w).is_empty());
        }
    }
}

//! Target selection: the requested language and driver pick one type
//! mapper and one file layout; unknown combinations are fatal and never
//! fall back silently.

use vstd::prelude::*;

use crate::error::Error;
use crate::mapping::TargetMapper;
use crate::ordmap::{map_index, map_keys};
use crate::request::Codegen;
use crate::strutil::{lemma_index_of_name, str_eq, index_of_name};

verus! {

/// The file layout of one target: extension and directory entrypoints.
pub struct FileGenConfig {
    pub extension: String,
    pub directory_entrypoint: String,
    pub model_dir_entrypoint: String,
}

/// Whether the configuration carries the option `name`.
pub open spec fn has_option(codegen: Codegen, name: Seq<char>) -> bool {
    map_index(codegen.options@, name) >= 0
}

/// The python targets need a package name.
pub fn check_required_options(codegen: &Codegen) -> (r: Result<(), Error>)
    ensures
        has_option(*codegen, "package"@) <==> r is Ok,
        !has_option(*codegen, "package"@) ==> (r matches Err(
            Error::MissingConfigurationOption { language, option },
        ) && language@ == "python"@ && option@ == "package"@),
{
    let mut i: usize = 0;
    while i < codegen.options.len()
        invariant
            i <= codegen.options@.len(),
            forall|j: int| 0 <= j < i ==> map_keys(codegen.options@)[j] != "package"@,
        decreases codegen.options@.len() - i,
    {
        proof {
            assert(map_keys(codegen.options@)[i as int] == codegen.options@[i as int].0@);
        }
        if str_eq(codegen.options[i].0.as_str(), "package") {
            proof {
                lemma_index_of_name(map_keys(codegen.options@), "package"@);
                assert(map_index(codegen.options@, "package"@) >= 0) by {
                    if map_index(codegen.options@, "package"@) < 0 {
                        assert(map_keys(codegen.options@)[i as int] != "package"@);
                    }
                }
            }
            return Ok(());
        }
        i = i + 1;
    }
    proof {
        lemma_index_of_name(map_keys(codegen.options@), "package"@);
        assert(map_index(codegen.options@, "package"@) < 0) by {
            let f = index_of_name(map_keys(codegen.options@), "package"@);
            if f >= 0 {
                assert(map_keys(codegen.options@)[f] != "package"@);
            }
        }
    }
    Err(
        Error::MissingConfigurationOption {
            language: String::from_str("python"),
            option: String::from_str("package"),
        },
    )
}

/// The asyncpg flavour of the python target.
pub fn asyncpg(codegen: &Codegen) -> (r: Result<(FileGenConfig, TargetMapper), Error>)
    ensures
        has_option(*codegen, "package"@) <==> r is Ok,
        r matches Ok(c) ==> {
            &&& c.0.extension@ == "py"@
            &&& c.0.directory_entrypoint@ == "__init__.py"@
            &&& c.0.model_dir_entrypoint@ == "__init__.py"@
            &&& c.1 is Asyncpg
        },
        r matches Err(e) ==> (e matches Error::MissingConfigurationOption { language, option }
            && language@ == "python"@ && option@ == "package"@),
{
    match check_required_options(codegen) {
        Ok(_) => Ok(
            (
                FileGenConfig {
                    extension: String::from_str("py"),
                    directory_entrypoint: String::from_str("__init__.py"),
                    model_dir_entrypoint: String::from_str("__init__.py"),
                },
                TargetMapper::Asyncpg,
            ),
        ),
        Err(e) => Err(e),
    }
}

/// The psycopg flavour of the python target.
pub fn psycopg(codegen: &Codegen) -> (r: Result<(FileGenConfig, TargetMapper), Error>)
    ensures
        has_option(*codegen, "package"@) <==> r is Ok,
        r matches Ok(c) ==> {
            &&& c.0.extension@ == "py"@
            &&& c.0.directory_entrypoint@ == "__init__.py"@
            &&& c.0.model_dir_entrypoint@ == "__init__.py"@
            &&& c.1 is Psycopg
        },
        r matches Err(e) ==> (e matches Error::MissingConfigurationOption { language, option }
            && language@ == "python"@ && option@ == "package"@),
{
    match check_required_options(codegen) {
        Ok(_) => Ok(
            (
                FileGenConfig {
                    extension: String::from_str("py"),
                    directory_entrypoint: String::from_str("__init__.py"),
                    model_dir_entrypoint: String::from_str("__init__.py"),
                },
                TargetMapper::Psycopg,
            ),
        ),
        Err(e) => Err(e),
    }
}

/// The postgres flavour of the typescript target.
pub fn postgres() -> (r: (FileGenConfig, TargetMapper))
    ensures
        r.0.extension@ == "ts"@,
        r.0.directory_entrypoint@ == "queries.ts"@,
        r.0.model_dir_entrypoint@ == "models.ts"@,
        r.1 is Typescript,
{
    (
        FileGenConfig {
            extension: String::from_str("ts"),
            directory_entrypoint: String::from_str("queries.ts"),
            model_dir_entrypoint: String::from_str("models.ts"),
        },
        TargetMapper::Typescript,
    )
}

/// Picks the target for a language/driver pair: an unknown driver of a known
/// language and an unknown language are distinct fatal errors.
pub fn select_target(codegen: &Codegen) -> (r: Result<(FileGenConfig, TargetMapper), Error>)
    ensures
        codegen.language@ == "python"@ && codegen.driver@ == "asyncpg"@ ==> (r matches Ok(c)
            ==> c.1 is Asyncpg),
        codegen.language@ == "python"@ && codegen.driver@ == "psycopg"@ ==> (r matches Ok(c)
            ==> c.1 is Psycopg),
        codegen.language@ == "typescript"@ && codegen.driver@ == "postgres"@ ==> (r matches Ok(c)
            && c.1 is Typescript),
        codegen.language@ == "python"@ && !(codegen.driver@ == "asyncpg"@ || codegen.driver@
            == "psycopg"@) ==> (r matches Err(e) && e matches Error::UnsupportedDriver {
            language,
            driver,
        } && language@ == codegen.language@ && driver@ == codegen.driver@),
        codegen.language@ == "typescript"@ && codegen.driver@ != "postgres"@ ==> (r matches Err(e)
            && e matches Error::UnsupportedDriver { language, driver } && language@
            == codegen.language@ && driver@ == codegen.driver@),
        !(codegen.language@ == "python"@ || codegen.language@ == "typescript"@) ==> (r matches Err(
            e,
        ) && e matches Error::NotSupportedLanguage(l) && l@ == codegen.language@),
        codegen.language@ == "python"@ && (codegen.driver@ == "asyncpg"@ || codegen.driver@
            == "psycopg"@) ==> (has_option(*codegen, "package"@) <==> r is Ok),
{
    proof {
        reveal_strlit("python");
        reveal_strlit("typescript");
        reveal_strlit("asyncpg");
        reveal_strlit("psycopg");
        reveal_strlit("postgres");
        assert("python"@ != "typescript"@) by {
            assert(("python"@).len() != ("typescript"@).len());
        }
        assert("asyncpg"@ != "psycopg"@) by {
            assert(("asyncpg"@)[0] == 'a');
            assert(("psycopg"@)[0] == 'p');
        }
    }
    if str_eq(codegen.language.as_str(), "python") {
        if str_eq(codegen.driver.as_str(), "asyncpg") {
            asyncpg(codegen)
        } else if str_eq(codegen.driver.as_str(), "psycopg") {
            psycopg(codegen)
        } else {
            Err(
                Error::UnsupportedDriver {
                    language: codegen.language.clone(),
                    driver: codegen.driver.clone(),
                },
            )
        }
    } else if str_eq(codegen.language.as_str(), "typescript") {
        if str_eq(codegen.driver.as_str(), "postgres") {
            Ok(postgres())
        } else {
            Err(
                Error::UnsupportedDriver {
                    language: codegen.language.clone(),
                    driver: codegen.driver.clone(),
                },
            )
        }
    } else {
        Err(Error::NotSupportedLanguage(codegen.language.clone()))
    }
}

} // verus!

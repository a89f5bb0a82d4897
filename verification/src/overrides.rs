//! The override layer: a configuration-supplied table keyed by qualified
//! catalog type name can replace the mapping of specific built-in types.
//! Lookup is best effort: a type without a canonical catalog name simply
//! delegates to the base mapper.

use vstd::prelude::*;

use crate::langtype::{LangTypeV, LanguageType};
use crate::mapping::{mapper_v, TargetMapper, TypeMapService};
use crate::ordmap::{entries_get, map_get, map_index};
use crate::request::TypeConfig;
use crate::strutil::clone_strings;
use crate::table::{pg_name_table, pg_row, pg_table_len};
use crate::ty::{type_eq, Type, TypeV};

verus! {

/// First row index whose canonical type is `t`, or -1.
pub open spec fn type_row_index(rows: Seq<(Seq<char>, TypeV)>, t: TypeV) -> int
    decreases rows.len(),
{
    if rows.len() == 0 {
        -1
    } else if rows[0].1 == t {
        0
    } else {
        let r = type_row_index(rows.drop_first(), t);
        if r < 0 {
            -1
        } else {
            r + 1
        }
    }
}

pub proof fn lemma_type_row_index(rows: Seq<(Seq<char>, TypeV)>, t: TypeV)
    ensures
        type_row_index(rows, t) >= 0 ==> {
            &&& type_row_index(rows, t) < rows.len()
            &&& rows[type_row_index(rows, t)].1 == t
            &&& forall|j: int| 0 <= j < type_row_index(rows, t) ==> rows[j].1 != t
        },
        type_row_index(rows, t) < 0 ==> forall|j: int| 0 <= j < rows.len() ==> rows[j].1 != t,
    decreases rows.len(),
{
    if rows.len() != 0 && rows[0].1 != t {
        lemma_type_row_index(rows.drop_first(), t);
        let r = type_row_index(rows.drop_first(), t);
        if r >= 0 {
            assert(rows.drop_first()[r] == rows[r + 1]);
            assert forall|j: int| 0 <= j < r + 1 implies rows[j].1 != t by {
                if j > 0 {
                    assert(rows.drop_first()[j - 1] == rows[j]);
                }
            }
        } else {
            assert forall|j: int| 0 <= j < rows.len() implies rows[j].1 != t by {
                if j > 0 {
                    assert(rows.drop_first()[j - 1] == rows[j]);
                }
            }
        }
    }
}

/// The qualified catalog name of a built-in canonical type, when the name
/// table holds one.
pub open spec fn canonical_qualified(t: TypeV) -> Option<Seq<char>> {
    let i = type_row_index(pg_name_table(), t);
    if i >= 0 {
        Some("pg_catalog."@ + pg_name_table()[i].0)
    } else {
        None
    }
}

/// What the override layer returns: a configured replacement when the type
/// has a canonical name with an override entry, the base mapping otherwise.
pub open spec fn override_v(
    overrides: Seq<(String, TypeConfig)>,
    m: TargetMapper,
    module: Seq<Seq<char>>,
    t: TypeV,
) -> LangTypeV {
    match canonical_qualified(t) {
        Some(q) => match map_get(overrides, q) {
            Some(tc) => LangTypeV {
                name: None,
                annotation: tc.annotation@,
                import: tc.import.deep_view(),
                module: None,
            },
            None => mapper_v(m, module, t),
        },
        None => mapper_v(m, module, t),
    }
}

/// A base mapper wrapped by the configured override table.
pub struct OverriddenTypeMapService {
    pub service: TargetMapper,
    pub overrides: Vec<(String, TypeConfig)>,
}

impl OverriddenTypeMapService {
    pub fn new(service: TargetMapper, overrides: Vec<(String, TypeConfig)>) -> (r: Self)
        ensures
            r.service == service,
            r.overrides == overrides,
    {
        OverriddenTypeMapService { service, overrides }
    }

    /// Projects `ty`, preferring the configured override for its canonical
    /// catalog name.
    pub fn get(&self, module: &Vec<String>, ty: &Type) -> (r: LanguageType)
        ensures
            r@ == override_v(self.overrides@, self.service, module.deep_view(), ty@),
    {
        let table = Type::names();
        let mut i: usize = 0;
        while i < table.len()
            invariant
                table@.len() == pg_name_table().len(),
                forall|j: int|
                    0 <= j < table@.len() ==> (#[trigger] table@[j]).0@ == pg_name_table()[j].0
                        && table@[j].1@ == pg_name_table()[j].1,
                i <= table@.len(),
                forall|j: int| 0 <= j < i ==> pg_name_table()[j].1 != ty@,
            decreases table@.len() - i,
        {
            if type_eq(&table[i].1, ty) {
                proof {
                    lemma_type_row_index(pg_name_table(), ty@);
                    assert(type_row_index(pg_name_table(), ty@) == i as int) by {
                        let f = type_row_index(pg_name_table(), ty@);
                        if f < 0 {
                            assert(pg_name_table()[i as int].1 != ty@);
                        } else if f < i {
                            assert(pg_name_table()[f].1 != ty@);
                        } else if f > i {
                            assert(pg_name_table()[i as int].1 != ty@);
                        }
                    }
                }
                let mut q = String::from_str("pg_catalog.");
                q.append(table[i].0);
                match entries_get(&self.overrides, q.as_str()) {
                    Some(tc) => {
                        return LanguageType {
                            name: None,
                            annotation: tc.annotation.clone(),
                            import: clone_strings(&tc.import),
                            module: None,
                        };
                    },
                    None => {
                        return self.service.get(module, ty);
                    },
                }
            }
            i = i + 1;
        }
        proof {
            lemma_type_row_index(pg_name_table(), ty@);
            assert(type_row_index(pg_name_table(), ty@) < 0) by {
                let f = type_row_index(pg_name_table(), ty@);
                if f >= 0 {
                    assert(pg_name_table()[f].1 != ty@);
                }
            }
        }
        self.service.get(module, ty)
    }
}

impl TypeMapService for OverriddenTypeMapService {
    fn get(&self, module: &Vec<String>, ty: &Type) -> LanguageType {
        OverriddenTypeMapService::get(self, module, ty)
    }
}

} // verus!

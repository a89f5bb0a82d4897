//! The language type: what one canonical type looks like in the target
//! language. Built fresh per resolution call and never mutated afterwards.

use vstd::prelude::*;

verus! {

/// The projection of a canonical type onto one target language.
pub struct LanguageType {
    pub name: Option<String>,
    pub annotation: String,
    pub import: Vec<String>,
    pub module: Option<String>,
}

/// The mathematical value of a `LanguageType`.
pub struct LangTypeV {
    pub name: Option<Seq<char>>,
    pub annotation: Seq<char>,
    pub import: Seq<Seq<char>>,
    pub module: Option<Seq<char>>,
}

impl View for LanguageType {
    type V = LangTypeV;

    open spec fn view(&self) -> LangTypeV {
        LangTypeV {
            name: match self.name {
                Some(n) => Some(n@),
                None => None,
            },
            annotation: self.annotation@,
            import: self.import.deep_view(),
            module: match self.module {
                Some(m) => Some(m@),
                None => None,
            },
        }
    }
}

/// A language type holding only a display annotation.
pub open spec fn lt_base(a: Seq<char>) -> LangTypeV {
    LangTypeV { name: None, annotation: a, import: Seq::empty(), module: None }
}

impl LanguageType {
    /// A language type holding only the given display annotation.
    pub fn annotation(annotation: &str) -> (r: Self)
        ensures
            r@ == lt_base(annotation@),
    {
        let r = LanguageType {
            annotation: annotation.to_owned(),
            name: None,
            import: Vec::new(),
            module: None,
        };
        proof {
            assert(r@.import =~= Seq::<Seq<char>>::empty());
            assert(r@ == lt_base(annotation@));
        }
        r
    }

    /// The same language type with a declared name.
    pub fn name(self, name: &str) -> (r: Self)
        ensures
            r@ == (LangTypeV { name: Some(name@), ..self@ }),
    {
        LanguageType { name: Some(name.to_owned()), ..self }
    }

    /// The same language type with the given import statements.
    pub fn import<const N: usize>(self, import: [&str; N]) -> (r: Self)
        ensures
            r@.name == self@.name,
            r@.annotation == self@.annotation,
            r@.module == self@.module,
            r@.import.len() == N,
            forall|i: int| 0 <= i < N ==> r@.import[i] == import@[i]@,
    {
        let mut imports: Vec<String> = Vec::new();
        let mut i: usize = 0;
        while i < N
            invariant
                i <= N,
                imports@.len() == i,
                forall|j: int| 0 <= j < i ==> (#[trigger] imports@[j])@ == import@[j]@,
            decreases N - i,
        {
            imports.push(import[i].to_owned());
            i = i + 1;
        }
        let r = LanguageType { import: imports, ..self };
        proof {
            assert(forall|j: int| 0 <= j < N ==> r@.import[j] == r.import@[j]@);
        }
        r
    }

    /// The same language type with one import statement.
    pub(crate) fn import1(self, a: &str) -> (r: Self)
        ensures
            r@ == (LangTypeV { import: seq![a@], ..self@ }),
    {
        let mut imports: Vec<String> = Vec::new();
        imports.push(a.to_owned());
        let r = LanguageType { import: imports, ..self };
        proof {
            assert(r@.import =~= seq![a@]);
        }
        r
    }

    /// The same language type with two import statements.
    pub(crate) fn import2(self, a: &str, b: &str) -> (r: Self)
        ensures
            r@ == (LangTypeV { import: seq![a@, b@], ..self@ }),
    {
        let mut imports: Vec<String> = Vec::new();
        imports.push(a.to_owned());
        imports.push(b.to_owned());
        let r = LanguageType { import: imports, ..self };
        proof {
            assert(r@.import =~= seq![a@, b@]);
        }
        r
    }

    /// The same language type with an owning module.
    pub fn module(self, module: &str) -> (r: Self)
        ensures
            r@ == (LangTypeV { module: Some(module@), ..self@ }),
    {
        LanguageType { module: Some(module.to_owned()), ..self }
    }
}

} // verus!

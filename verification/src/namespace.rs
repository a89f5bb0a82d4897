//! The query namespace tree: queries are grouped by their dotted namespace
//! string, derived from an explicit annotation or from the query's source
//! path. Nodes are created on demand and shared by every query under the
//! same prefix; child maps stay sorted for deterministic emission.

use vstd::prelude::*;

use crate::method::{method_from_query, method_types, Method, MethodService};
use crate::ordmap::{entries_get, entries_insert, entries_remove, map_get, map_index, map_keys, map_sorted};
use crate::request::{Catalog, Query, Request};
use crate::resolver::TypeService;
use crate::ty::{spec_dedup, type_views, dedup_types, Type, TypeV};
use crate::strutil::{
    index_of_name, lemma_index_of_name, lemma_split_nonempty, spec_split, spec_trim_end_matches,
    split_on, str_eq, trim_end_matches,
};

verus! {

/// The namespace string of a query: the value of its `namespace` annotation
/// when one is present with a value, otherwise the last segment of its
/// source path with every trailing `.sql` removed.
pub open spec fn spec_namespace(q: Query) -> Seq<char> {
    let keys = q.annotations@.map_values(|p: (String, crate::request::Annotation)| p.0@);
    let ai = index_of_name(keys, "namespace"@);
    if ai >= 0 && q.annotations@[ai].1.value is Some {
        match q.annotations@[ai].1.value {
            Some(v) => v@,
            None => Seq::empty(),
        }
    } else {
        spec_trim_end_matches(spec_split(q.path@, '/').last(), ".sql"@)
    }
}

/// A namespace string split into its path segments; the empty string denotes
/// the root and has no segments.
pub open spec fn split_ns(s: Seq<char>) -> Seq<Seq<char>> {
    if s.len() == 0 {
        Seq::empty()
    } else {
        spec_split(s, '.')
    }
}

/// The namespace segments of a query.
pub open spec fn namespace_segments(q: Query) -> Seq<Seq<char>> {
    split_ns(spec_namespace(q))
}

impl Query {
    /// The namespace string of this query.
    pub fn namespace(&self) -> (r: String)
        ensures
            r@ == spec_namespace(*self),
    {
        let ghost keys = self.annotations@.map_values(
            |p: (String, crate::request::Annotation)| p.0@,
        );
        let mut i: usize = 0;
        while i < self.annotations.len()
            invariant
                i <= self.annotations@.len(),
                keys == self.annotations@.map_values(
                    |p: (String, crate::request::Annotation)| p.0@,
                ),
                forall|j: int| 0 <= j < i ==> keys[j] != "namespace"@,
            decreases self.annotations@.len() - i,
        {
            proof {
                assert(keys[i as int] == self.annotations@[i as int].0@);
            }
            if str_eq(self.annotations[i].0.as_str(), "namespace") {
                proof {
                    lemma_index_of_name(keys, "namespace"@);
                    assert(index_of_name(keys, "namespace"@) == i as int) by {
                        let f = index_of_name(keys, "namespace"@);
                        if f < 0 {
                            assert(keys[i as int] != "namespace"@);
                        } else if f < i {
                            assert(keys[f] != "namespace"@);
                        } else if f > i {
                            assert(keys[i as int] != "namespace"@);
                        }
                    }
                }
                match &self.annotations[i].1.value {
                    Some(v) => {
                        return v.clone();
                    },
                    None => {
                        return self.namespace_from_path();
                    },
                }
            }
            i = i + 1;
        }
        proof {
            lemma_index_of_name(keys, "namespace"@);
            assert(index_of_name(keys, "namespace"@) < 0) by {
                let f = index_of_name(keys, "namespace"@);
                if f >= 0 {
                    assert(keys[f] != "namespace"@);
                }
            }
        }
        self.namespace_from_path()
    }

    fn namespace_from_path(&self) -> (r: String)
        ensures
            r@ == spec_trim_end_matches(spec_split(self.path@, '/').last(), ".sql"@),
    {
        let parts = split_on(self.path.as_str(), '/');
        proof {
            lemma_split_nonempty(self.path@, '/');
            assert(parts.deep_view().len() == parts@.len());
            assert(parts.deep_view()[parts@.len() - 1] == parts@[parts@.len() - 1]@);
        }
        let last = &parts[parts.len() - 1];
        trim_end_matches(last.as_str(), ".sql")
    }
}

/// One node of the namespace tree.
pub struct QueryNamespace {
    pub name: String,
    pub subnamespaces: Vec<(String, QueryNamespace)>,
    pub methods: Vec<Method>,
}

/// Well-formedness of a namespace tree: every child map is sorted and every
/// child carries the name it is keyed under.
pub open spec fn ns_wf(n: QueryNamespace) -> bool
    decreases n,
{
    &&& map_sorted(n.subnamespaces@)
    &&& forall|i: int|
        0 <= i < n.subnamespaces@.len() ==> {
            &&& (#[trigger] n.subnamespaces@[i]).1.name@ == n.subnamespaces@[i].0@
            &&& ns_wf(n.subnamespaces@[i].1)
        }
}

/// The node reached from `n` by following `segs`.
pub open spec fn spec_resolve(n: QueryNamespace, segs: Seq<Seq<char>>) -> Option<QueryNamespace>
    decreases segs.len(),
{
    if segs.len() == 0 {
        Some(n)
    } else {
        match map_get(n.subnamespaces@, segs.first()) {
            Some(c) => spec_resolve(c, segs.drop_first()),
            None => None,
        }
    }
}

/// The methods attached at the node reached by `segs`; an absent node holds
/// none.
pub open spec fn methods_at(n: QueryNamespace, segs: Seq<Seq<char>>) -> Seq<Method> {
    match spec_resolve(n, segs) {
        Some(x) => x.methods@,
        None => Seq::empty(),
    }
}

impl QueryNamespace {
    /// The root node: an empty name, no children, no methods.
    pub fn root() -> (r: Self)
        ensures
            r.name@.len() == 0,
            r.subnamespaces@.len() == 0,
            r.methods@.len() == 0,
            ns_wf(r),
    {
        QueryNamespace { name: String::new(), subnamespaces: Vec::new(), methods: Vec::new() }
    }

    fn new_node(name: String) -> (r: Self)
        ensures
            r.name@ == name@,
            r.subnamespaces@.len() == 0,
            r.methods@.len() == 0,
            ns_wf(r),
    {
        QueryNamespace { name, subnamespaces: Vec::new(), methods: Vec::new() }
    }

    /// Follows a dotted namespace string from this node down.
    pub fn resolve(&self, name: &str) -> (r: Option<&QueryNamespace>)
        ensures
            spec_resolve(*self, split_ns(name@)) matches Some(node) ==> (r matches Some(x) && *x
                == node),
            spec_resolve(*self, split_ns(name@)) is None ==> r is None,
    {
        let segs: Vec<String> = if name.unicode_len() == 0 {
            Vec::new()
        } else {
            split_on(name, '.')
        };
        proof {
            assert(segs.deep_view() == split_ns(name@));
        }
        let ghost all = segs.deep_view();
        let mut cur: &QueryNamespace = self;
        let mut i: usize = 0;
        proof {
            assert(all.skip(0) =~= all);
        }
        while i < segs.len()
            invariant
                all == segs.deep_view(),
                all == split_ns(name@),
                i <= segs@.len(),
                all.len() == segs@.len(),
                spec_resolve(*self, all) == spec_resolve(*cur, all.skip(i as int)),
            decreases segs@.len() - i,
        {
            proof {
                assert(all.skip(i as int).first() == all[i as int]);
                assert(all.skip(i as int).drop_first() =~= all.skip(i + 1));
                assert(all[i as int] == segs@[i as int]@);
            }
            match entries_get(&cur.subnamespaces, segs[i].as_str()) {
                Some(c) => {
                    cur = c;
                },
                None => {
                    proof {
                        assert(spec_resolve(*cur, all.skip(i as int)) is None);
                    }
                    return None;
                },
            }
            i = i + 1;
        }
        proof {
            assert(all.skip(all.len() as int).len() == 0);
        }
        Some(cur)
    }

    /// Attaches `m` at the node reached by `segs[i..]`, creating nodes on
    /// demand. Methods anywhere else stay as they were.
    pub fn attach(&mut self, segs: &Vec<String>, i: usize, m: Method)
        requires
            i <= segs@.len(),
            ns_wf(*old(self)),
        ensures
            ns_wf(*final(self)),
            final(self).name@ == old(self).name@,
            methods_at(*final(self), segs.deep_view().skip(i as int)) == methods_at(
                *old(self),
                segs.deep_view().skip(i as int),
            ).push(m),
            forall|p: Seq<Seq<char>>|
                p != segs.deep_view().skip(i as int) ==> #[trigger] methods_at(*final(self), p)
                    == methods_at(*old(self), p),
        decreases segs@.len() - i,
    {
        let ghost sfx = segs.deep_view().skip(i as int);
        if i == segs.len() {
            proof {
                assert(sfx.len() == 0);
            }
            self.methods.push(m);
            proof {
                assert(methods_at(*self, sfx) =~= methods_at(*old(self), sfx).push(m));
                assert forall|p: Seq<Seq<char>>|
                    p != sfx implies #[trigger] methods_at(*self, p) == methods_at(
                    *old(self),
                    p,
                ) by {
                    if p.len() == 0 {
                        assert(p =~= sfx);
                    } else {
                        lemma_resolve_same_children(*old(self), *self, p);
                    }
                }
            }
        } else {
            proof {
                assert(sfx.len() == segs@.len() - i);
                assert(sfx.first() == segs.deep_view()[i as int]);
                assert(sfx.drop_first() =~= segs.deep_view().skip(i + 1));
                assert(segs.deep_view()[i as int] == segs@[i as int]@);
            }
            let ghost orig = *self;
            let seg = &segs[i];
            let existing = entries_remove(&mut self.subnamespaces, seg.as_str());
            let ghost mid = *self;
            let ghost child_start: QueryNamespace;
            let mut child = match existing {
                Some(c) => {
                    proof {
                        child_start = c;
                        let ki = map_index(orig.subnamespaces@, seg@);
                        lemma_index_of_name(map_keys(orig.subnamespaces@), seg@);
                        assert(orig.subnamespaces@[ki].1 == c);
                        assert(ns_wf(c) && c.name@ == seg@) by {
                            assert(orig.subnamespaces@[ki].0@
                                == map_keys(orig.subnamespaces@)[ki]);
                        }
                    }
                    c
                },
                None => {
                    let c = QueryNamespace::new_node(seg.clone());
                    proof {
                        child_start = c;
                    }
                    c
                },
            };
            child.attach(segs, i + 1, m);
            proof {
                assert(child.name@ == seg@);
                assert(ns_wf(child));
                assert(map_index(mid.subnamespaces@, seg@) < 0);
            }
            let key_s = seg.clone();
            let ghost key_view = key_s@;
            entries_insert(&mut self.subnamespaces, key_s, child);
            proof {
                assert(key_view == seg@);
                let pp = choose|pp: int|
                    0 <= pp <= mid.subnamespaces@.len() && self.subnamespaces@
                        == mid.subnamespaces@.insert(pp, (key_s, child));
                // well-formedness: each entry of the new map is the new child
                // or an entry of the original map
                assert forall|j: int|
                    0 <= j < self.subnamespaces@.len() implies {
                    &&& (#[trigger] self.subnamespaces@[j]).1.name@ == self.subnamespaces@[j].0@
                    &&& ns_wf(self.subnamespaces@[j].1)
                } by {
                    if j == pp {
                        assert(self.subnamespaces@[j] == (key_s, child));
                    } else {
                        let jm = if j < pp { j } else { j - 1 };
                        assert(self.subnamespaces@[j] == mid.subnamespaces@[jm]);
                        if map_index(orig.subnamespaces@, seg@) >= 0 {
                            let ki = map_index(orig.subnamespaces@, seg@);
                            let jo = if jm < ki { jm } else { jm + 1 };
                            assert(mid.subnamespaces@[jm] == orig.subnamespaces@[jo]);
                        } else {
                            assert(mid.subnamespaces@[jm] == orig.subnamespaces@[jm]);
                        }
                    }
                }
                assert(ns_wf(*self));
                // resolution at the target suffix goes through the new child
                assert(map_get(self.subnamespaces@, sfx.first()) == Some(child));
                assert(methods_at(*self, sfx) == methods_at(child, sfx.drop_first()));
                assert(sfx.drop_first() == segs.deep_view().skip(i + 1));
                if map_index(orig.subnamespaces@, sfx.first()) >= 0 {
                    assert(map_get(orig.subnamespaces@, sfx.first()) == Some(child_start));
                    assert(methods_at(orig, sfx) == methods_at(child_start, sfx.drop_first()));
                } else {
                    assert(spec_resolve(orig, sfx) is None);
                    assert(methods_at(orig, sfx) =~= Seq::<Method>::empty());
                    lemma_empty_node_methods(child_start, sfx.drop_first());
                }
                assert(methods_at(*self, sfx) =~= methods_at(orig, sfx).push(m));
                // every other path is untouched
                assert forall|p: Seq<Seq<char>>|
                    p != sfx implies #[trigger] methods_at(*self, p) == methods_at(orig, p) by {
                    if p.len() == 0 {
                        assert(methods_at(*self, p) == self.methods@);
                        assert(methods_at(orig, p) == orig.methods@);
                    } else if p.first() == sfx.first() {
                        assert(p.drop_first() != sfx.drop_first()) by {
                            if p.drop_first() == sfx.drop_first() {
                                assert(p.len() == sfx.len());
                                assert forall|q: int| 0 <= q < p.len() implies p[q] == sfx[q] by {
                                    if q > 0 {
                                        assert(p.drop_first()[q - 1] == p[q]);
                                        assert(sfx.drop_first()[q - 1] == sfx[q]);
                                    }
                                }
                                assert(p =~= sfx);
                            }
                        }
                        assert(methods_at(*self, p) == methods_at(child, p.drop_first()));
                        assert(methods_at(child, p.drop_first()) == methods_at(
                            child_start,
                            p.drop_first(),
                        ));
                        if map_index(orig.subnamespaces@, p.first()) >= 0 {
                            assert(map_get(orig.subnamespaces@, p.first()) == Some(child_start));
                            assert(methods_at(orig, p) == methods_at(
                                child_start,
                                p.drop_first(),
                            ));
                        } else {
                            assert(methods_at(orig, p) =~= Seq::<Method>::empty());
                            lemma_empty_node_methods(child_start, p.drop_first());
                        }
                    } else {
                        assert(map_get(self.subnamespaces@, p.first())
                            == map_get(mid.subnamespaces@, p.first()));
                        assert(map_get(mid.subnamespaces@, p.first())
                            == map_get(orig.subnamespaces@, p.first()));
                        assert(methods_at(*self, p) == methods_at(orig, p));
                    }
                }
            }
        }
    }
}


/// The types mentioned by a list of methods, concatenated in order.
pub open spec fn methods_types(methods: Seq<Method>) -> Seq<TypeV>
    decreases methods.len(),
{
    if methods.len() == 0 {
        Seq::empty()
    } else {
        methods_types(methods.drop_last()) + method_types(methods.last())
    }
}

/// The queries of `queries` whose namespace segments equal `p`, in order.
pub open spec fn queries_matching(queries: Seq<Query>, p: Seq<Seq<char>>) -> Seq<Query>
    decreases queries.len(),
{
    if queries.len() == 0 {
        Seq::empty()
    } else {
        let prev = queries_matching(queries.drop_last(), p);
        if namespace_segments(queries.last()) == p {
            prev.push(queries.last())
        } else {
            prev
        }
    }
}

impl QueryNamespace {
    /// The distinct types used by the methods attached directly at this
    /// node, first occurrences first.
    pub fn used_types(&self) -> (r: Vec<Type>)
        ensures
            type_views(r@) == spec_dedup(methods_types(self.methods@)),
    {
        let mut all: Vec<Type> = Vec::new();
        let mut mi: usize = 0;
        proof {
            assert(self.methods@.take(0) =~= Seq::<Method>::empty());
            assert(type_views(all@) =~= methods_types(self.methods@.take(0)));
        }
        while mi < self.methods.len()
            invariant
                mi <= self.methods@.len(),
                type_views(all@) == methods_types(self.methods@.take(mi as int)),
            decreases self.methods@.len() - mi,
        {
            let mut part = self.methods[mi].used_types();
            all.append(&mut part);
            proof {
                assert(self.methods@.take(mi + 1).drop_last() =~= self.methods@.take(mi as int));
                assert(self.methods@.take(mi + 1).last() == self.methods@[mi as int]);
                assert(type_views(all@) =~= methods_types(self.methods@.take(mi as int))
                    + method_types(self.methods@[mi as int]));
            }
            mi = mi + 1;
        }
        proof {
            assert(self.methods@.take(self.methods@.len() as int) =~= self.methods@);
        }
        dedup_types(all)
    }
}

impl QueryNamespace {
    /// Builds the whole namespace tree of a request's queries.
    pub fn from_request(request: Request) -> (r: QueryNamespace)
        ensures
            ns_wf(r),
            forall|p: Seq<Seq<char>>|
                #[trigger] methods_at(r, p).len() == queries_matching(request.queries@, p).len(),
            forall|p: Seq<Seq<char>>, j: int|
                #![trigger queries_matching(request.queries@, p)[j], methods_at(r, p)[j]]
                0 <= j < queries_matching(request.queries@, p).len() ==> method_from_query(
                    request.catalog,
                    queries_matching(request.queries@, p)[j],
                    methods_at(r, p)[j],
                ),
    {
        let mut builder = QueryNamespaceBuilder::new(request);
        builder.build()
    }
}

/// Builds the namespace tree of a request's queries.
pub struct QueryNamespaceBuilder {
    pub request: Request,
    pub namespace: QueryNamespace,
}

impl QueryNamespaceBuilder {
    pub fn new(request: Request) -> (r: Self)
        ensures
            r.request == request,
            ns_wf(r.namespace),
            r.namespace.methods@.len() == 0,
            r.namespace.subnamespaces@.len() == 0,
    {
        QueryNamespaceBuilder { request, namespace: QueryNamespace::root() }
    }

    /// Builds one query's method and attaches it at the query's namespace.
    pub fn include_query(&mut self, query: &Query)
        requires
            ns_wf(old(self).namespace),
        ensures
            final(self).request == old(self).request,
            ns_wf(final(self).namespace),
            ({
                let ms = methods_at(final(self).namespace, namespace_segments(*query));
                let before = methods_at(old(self).namespace, namespace_segments(*query));
                &&& ms.len() == before.len() + 1
                &&& ms.take(before.len() as int) == before
                &&& method_from_query(old(self).request.catalog, *query, ms.last())
            }),
            forall|p: Seq<Seq<char>>|
                p != namespace_segments(*query) ==> #[trigger] methods_at(
                    final(self).namespace,
                    p,
                ) == methods_at(old(self).namespace, p),
    {
        let ns = query.namespace();
        let segs: Vec<String> = if ns.as_str().unicode_len() == 0 {
            Vec::new()
        } else {
            split_on(ns.as_str(), '.')
        };
        proof {
            assert(segs.deep_view() == namespace_segments(*query));
        }
        let type_service = TypeService { catalog: &self.request.catalog };
        let method_service = MethodService::new(type_service);
        let m = method_service.build(query);
        proof {
            assert(segs.deep_view().skip(0) =~= segs.deep_view());
        }
        self.namespace.attach(&segs, 0, m);
        proof {
            let path = namespace_segments(*query);
            let ms = methods_at(self.namespace, path);
            let before = methods_at(old(self).namespace, path);
            assert(ms == before.push(m));
            assert(ms.take(before.len() as int) =~= before);
        }
    }

    /// Builds the whole tree: every query's method sits at the node reached
    /// by the query's namespace segments, in query order; no method sits
    /// anywhere else.
    pub fn build(&mut self) -> (r: QueryNamespace)
        ensures
            final(self).request == old(self).request,
            ns_wf(r),
            forall|p: Seq<Seq<char>>|
                #[trigger] methods_at(r, p).len() == queries_matching(
                    old(self).request.queries@,
                    p,
                ).len(),
            forall|p: Seq<Seq<char>>, j: int|
                #![trigger queries_matching(old(self).request.queries@, p)[j], methods_at(r, p)[j]]
                0 <= j < queries_matching(old(self).request.queries@, p).len()
                    ==> method_from_query(
                    old(self).request.catalog,
                    queries_matching(old(self).request.queries@, p)[j],
                    methods_at(r, p)[j],
                ),
    {
        let mut root = QueryNamespace::root();
        let mut i: usize = 0;
        proof {
            assert(self.request.queries@.take(0) =~= Seq::<Query>::empty());
            assert forall|p: Seq<Seq<char>>| #[trigger] methods_at(root, p).len()
                == queries_matching(self.request.queries@.take(0), p).len() by {
                lemma_empty_node_methods(root, p);
            }
        }
        while i < self.request.queries.len()
            invariant
                *self == *old(self),
                i <= self.request.queries@.len(),
                ns_wf(root),
                forall|p: Seq<Seq<char>>|
                    #[trigger] methods_at(root, p).len() == queries_matching(
                        self.request.queries@.take(i as int),
                        p,
                    ).len(),
                forall|p: Seq<Seq<char>>, j: int|
                    #![trigger queries_matching(self.request.queries@.take(i as int), p)[j], methods_at(root, p)[j]]
                    0 <= j < queries_matching(self.request.queries@.take(i as int), p).len()
                        ==> method_from_query(
                        self.request.catalog,
                        queries_matching(self.request.queries@.take(i as int), p)[j],
                        methods_at(root, p)[j],
                    ),
            decreases self.request.queries@.len() - i,
        {
            let query = &self.request.queries[i];
            let ns = query.namespace();
            let segs: Vec<String> = if ns.as_str().unicode_len() == 0 {
                Vec::new()
            } else {
                split_on(ns.as_str(), '.')
            };
            proof {
                assert(segs.deep_view() == namespace_segments(*query));
            }
            let type_service = TypeService { catalog: &self.request.catalog };
            let method_service = MethodService::new(type_service);
            let m = method_service.build(query);
            let ghost before_tree = root;
            proof {
                assert(segs.deep_view().skip(0) =~= segs.deep_view());
            }
            root.attach(&segs, 0, m);
            proof {
                let pre = self.request.queries@.take(i as int);
                let post = self.request.queries@.take(i + 1);
                assert(post.drop_last() =~= pre);
                assert(post.last() == self.request.queries@[i as int]);
                let path0 = namespace_segments(*query);
                assert(methods_at(root, path0) == methods_at(before_tree, path0).push(m));
                assert forall|p: Seq<Seq<char>>| #[trigger] methods_at(root, p).len()
                    == queries_matching(post, p).len() by {
                    if p == path0 {
                        assert(queries_matching(post, p) == queries_matching(pre, p).push(
                            post.last(),
                        ));
                    } else {
                        assert(methods_at(root, p) == methods_at(before_tree, p));
                        assert(queries_matching(post, p) == queries_matching(pre, p));
                    }
                }
                assert forall|p: Seq<Seq<char>>, j: int|
                    0 <= j < queries_matching(post, p).len() implies method_from_query(
                    self.request.catalog,
                    #[trigger] queries_matching(post, p)[j],
                    #[trigger] methods_at(root, p)[j],
                ) by {
                    if p == path0 {
                        assert(queries_matching(post, p) == queries_matching(pre, p).push(
                            post.last(),
                        ));
                        assert(methods_at(root, p) == methods_at(before_tree, p).push(m));
                        if j < queries_matching(pre, p).len() {
                            assert(queries_matching(post, p)[j] == queries_matching(pre, p)[j]);
                            assert(methods_at(root, p)[j] == methods_at(before_tree, p)[j]);
                        } else {
                            assert(queries_matching(post, p)[j] == post.last());
                            assert(methods_at(root, p)[j] == m);
                        }
                    } else {
                        assert(methods_at(root, p) == methods_at(before_tree, p));
                        assert(queries_matching(post, p) == queries_matching(pre, p));
                    }
                }
            }
            i = i + 1;
        }
        proof {
            assert(self.request.queries@.take(self.request.queries@.len() as int)
                =~= self.request.queries@);
        }
        root
    }
}

/// Two nodes with the same child map hold the same methods under every
/// non-empty path.
proof fn lemma_resolve_same_children(a: QueryNamespace, b: QueryNamespace, p: Seq<Seq<char>>)
    requires
        p.len() > 0,
        a.subnamespaces@ == b.subnamespaces@,
    ensures
        methods_at(a, p) == methods_at(b, p),
{
}

/// A node without children or methods holds no methods anywhere.
proof fn lemma_empty_node_methods(n: QueryNamespace, p: Seq<Seq<char>>)
    requires
        n.subnamespaces@.len() == 0,
        n.methods@.len() == 0,
    ensures
        methods_at(n, p) =~= Seq::<Method>::empty(),
    decreases p.len(),
{
    if p.len() > 0 {
        lemma_index_of_name(map_keys(n.subnamespaces@), p.first());
    }
}

} // verus!

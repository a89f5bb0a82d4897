//! The intermediate representation of one build: the request it came from,
//! the model-module tree and the query-namespace tree, built once and never
//! mutated afterwards.

use vstd::prelude::*;

use crate::method::method_from_query;
use crate::models::{
    last_schema_index, module_from_schema, ModelModules, ModelService,
};
use crate::namespace::{
    methods_at, ns_wf, queries_matching, QueryNamespace, QueryNamespaceBuilder,
};
use crate::request::Request;
use crate::resolver::TypeService;

verus! {

/// The intermediate representation handed to the presentation layer.
pub struct Ir {
    pub request: Request,
    pub query_namespace: QueryNamespace,
    pub model_modules: ModelModules,
}

/// Everything the build promises about an intermediate representation.
pub open spec fn ir_from_request(request: Request, ir: Ir) -> bool {
    &&& ir.request == request
    &&& ir.model_modules.model_modules.sorted()
    &&& forall|k: Seq<char>|
        #[trigger] ir.model_modules.model_modules.spec_contains(k) <==> last_schema_index(
            request.catalog.schemas@,
            k,
        ) >= 0
    &&& forall|k: Seq<char>|
        last_schema_index(request.catalog.schemas@, k) >= 0 ==> (
        #[trigger] ir.model_modules.model_modules.spec_get(k) matches Some(m)
            && module_from_schema(
            request.catalog,
            request.catalog.schemas@[last_schema_index(request.catalog.schemas@, k)],
            m,
        ))
    &&& ns_wf(ir.query_namespace)
    &&& forall|p: Seq<Seq<char>>|
        #[trigger] methods_at(ir.query_namespace, p).len() == queries_matching(
            request.queries@,
            p,
        ).len()
    &&& forall|p: Seq<Seq<char>>, j: int|
        #![trigger queries_matching(request.queries@, p)[j], methods_at(ir.query_namespace, p)[j]]
        0 <= j < queries_matching(request.queries@, p).len() ==> method_from_query(
            request.catalog,
            queries_matching(request.queries@, p)[j],
            methods_at(ir.query_namespace, p)[j],
        )
}

/// Builds the intermediate representation of one request.
pub struct IrService {
    pub request: Request,
}

impl IrService {
    pub fn new(request: Request) -> (r: Self)
        ensures
            r.request == request,
    {
        IrService { request }
    }

    /// Builds the model-module tree and the query-namespace tree, then hands
    /// the request on inside the result.
    pub fn build(self) -> (r: Ir)
        ensures
            ir_from_request(self.request, r),
    {
        let model_modules = {
            let type_service = TypeService { catalog: &self.request.catalog };
            let service = ModelService { type_service, catalog: &self.request.catalog };
            service.create_model_modules()
        };
        let mut builder = QueryNamespaceBuilder::new(self.request);
        let query_namespace = builder.build();
        Ir { request: builder.request, query_namespace, model_modules }
    }
}

} // verus!

//! The file emission walker: one file per model module, one per namespace
//! node, the target's auxiliary files, and the models-directory entrypoint,
//! in that order. Every path is pinned down exactly; the rendered text comes
//! from the templating engine and is taken as it is.

use vstd::prelude::*;

use crate::context::{
    model_module_into, model_module_obj_into, namespace_into, strs_arr_into, type_json_arr_into,
};
use crate::error::Error;
use crate::ir::Ir;
use crate::models::ModelModule;
use crate::namespace::QueryNamespace;
use crate::render::{render_named, render_template};
use crate::response::File;
use crate::target::FileGenConfig;

verus! {

/// The paths of a file list, in order.
pub open spec fn paths_of(files: Seq<File>) -> Seq<Seq<char>> {
    files.map_values(|f: File| f.path@)
}

/// Path segments joined with slashes.
pub open spec fn join_slash(segs: Seq<Seq<char>>) -> Seq<char>
    decreases segs.len(),
{
    if segs.len() == 0 {
        Seq::empty()
    } else if segs.len() == 1 {
        segs[0]
    } else {
        join_slash(segs.drop_last()) + "/"@ + segs.last()
    }
}

/// Joins path segments with slashes.
pub fn join_slash_exec(segs: &Vec<String>) -> (r: String)
    ensures
        r@ == join_slash(segs.deep_view()),
{
    let mut r = String::new();
    let mut i: usize = 0;
    proof {
        assert(segs.deep_view().take(0) =~= Seq::<Seq<char>>::empty());
    }
    while i < segs.len()
        invariant
            i <= segs@.len(),
            segs.deep_view().len() == segs@.len(),
            r@ == join_slash(segs.deep_view().take(i as int)),
        decreases segs@.len() - i,
    {
        proof {
            assert(segs.deep_view().take(i + 1).drop_last() =~= segs.deep_view().take(i as int));
            assert(segs.deep_view().take(i + 1).last() == segs.deep_view()[i as int]);
            assert(segs.deep_view()[i as int] == segs@[i as int]@);
        }
        if i > 0 {
            r.append("/");
        }
        r.append(segs[i].as_str());
        proof {
            if i == 0 {
                assert(r@ =~= join_slash(segs.deep_view().take(1)));
            }
        }
        i = i + 1;
    }
    proof {
        assert(segs.deep_view().take(segs@.len() as int) =~= segs.deep_view());
    }
    r
}

/// The file path of one model module.
pub open spec fn model_file_path(name: Seq<char>, ext: Seq<char>) -> Seq<char> {
    "models/"@ + name + "."@ + ext
}

/// The file path of one namespace node: a directory entrypoint when the node
/// has children, a plain file otherwise.
pub open spec fn node_path(
    segs: Seq<Seq<char>>,
    has_children: bool,
    ext: Seq<char>,
    de: Seq<char>,
) -> Seq<char> {
    if has_children {
        join_slash(segs) + "/"@ + de
    } else {
        join_slash(segs) + "."@ + ext
    }
}

/// The paths of the files the first `i` children of `n` emit.
pub open spec fn children_paths(
    n: QueryNamespace,
    i: int,
    segs: Seq<Seq<char>>,
    ext: Seq<char>,
    de: Seq<char>,
) -> Seq<Seq<char>>
    decreases n, i,
{
    if i <= 0 || i > n.subnamespaces@.len() {
        Seq::empty()
    } else {
        children_paths(n, i - 1, segs, ext, de) + query_paths(
            n.subnamespaces@[i - 1].1,
            segs.push(n.subnamespaces@[i - 1].0@),
            ext,
            de,
        )
    }
}

/// The paths of the files a namespace subtree emits: the node's own file,
/// then each child's subtree in key order.
pub open spec fn query_paths(
    n: QueryNamespace,
    segs: Seq<Seq<char>>,
    ext: Seq<char>,
    de: Seq<char>,
) -> Seq<Seq<char>>
    decreases n, n.subnamespaces@.len() + 1,
{
    seq![node_path(segs, n.subnamespaces@.len() > 0, ext, de)] + children_paths(
        n,
        n.subnamespaces@.len() as int,
        segs,
        ext,
        de,
    )
}

/// The paths of the model module files, in module order.
pub open spec fn model_paths(entries: Seq<(String, ModelModule)>, ext: Seq<char>) -> Seq<
    Seq<char>,
>
    decreases entries.len(),
{
    if entries.len() == 0 {
        Seq::empty()
    } else {
        model_paths(entries.drop_last(), ext) + seq![model_file_path(entries.last().0@, ext)]
    }
}

/// The paths of the auxiliary files, as declared.
pub open spec fn aux_paths(files: Seq<File>) -> Seq<Seq<char>>
    decreases files.len(),
{
    if files.len() == 0 {
        Seq::empty()
    } else {
        aux_paths(files.drop_last()) + seq![files.last().path@]
    }
}

/// Every path one build emits, in emission order.
pub open spec fn emission_paths(ir: Ir, config: FileGenConfig, others: Seq<File>) -> Seq<
    Seq<char>,
> {
    model_paths(ir.model_modules.model_modules.entries@, config.extension@) + query_paths(
        ir.query_namespace,
        Seq::empty(),
        config.extension@,
        config.directory_entrypoint@,
    ) + aux_paths(others) + seq!["models/"@ + config.model_dir_entrypoint@]
}

/// Renders every file of one build.
pub struct PresentationService {
    pub ir: Ir,
}

impl PresentationService {
    /// Emits the whole build: model module files in key order, the query
    /// namespace tree in pre-order, the target's auxiliary files, and the
    /// models-directory entrypoint last. The paths are exactly
    /// `emission_paths`; the contents are whatever the engine rendered.
    /// Emits the whole build: model module files in key order, the query
    /// namespace tree in pre-order, the target's auxiliary files, and the
    /// models-directory entrypoint last. The paths are exactly
    /// `emission_paths`; the contents are whatever the engine rendered.
    pub fn generate(
        &self,
        env: &minijinja::Environment,
        config: &FileGenConfig,
        other_templates: &Vec<File>,
    ) -> (r: Result<Vec<File>, Error>)
        ensures
            r matches Ok(files) ==> paths_of(files@) == emission_paths(
                self.ir,
                *config,
                other_templates@,
            ),
            r matches Err(e) ==> e is TemplateError,
    {
        let mut files: Vec<File> = Vec::new();
        proof {
            assert(paths_of(files@) =~= Seq::<Seq<char>>::empty());
        }
        match self.model_module_files(env, config, &mut files) {
            Ok(_) => {},
            Err(e) => {
                return Err(e);
            },
        }
        match self.add_query_files(env, config, &mut files) {
            Ok(_) => {},
            Err(e) => {
                return Err(e);
            },
        }
        match self.add_aux_files(env, other_templates, &mut files) {
            Ok(_) => {},
            Err(e) => {
                return Err(e);
            },
        }
        match self.add_model_entrypoint(env, config, &mut files) {
            Ok(_) => {},
            Err(e) => {
                return Err(e);
            },
        }
        proof {
            assert(paths_of(files@) =~= emission_paths(self.ir, *config, other_templates@));
        }
        Ok(files)
    }

    /// Renders one file per model module, in key order.
    fn model_module_files(
        &self,
        env: &minijinja::Environment,
        config: &FileGenConfig,
        files: &mut Vec<File>,
    ) -> (r: Result<(), Error>)
        ensures
            r is Ok ==> paths_of(final(files)@) == paths_of(old(files)@) + model_paths(
                self.ir.model_modules.model_modules.entries@,
                config.extension@,
            ),
            r matches Err(e) ==> e is TemplateError,
    {
        let ghost base = paths_of(old(files)@);
        let entries = &self.ir.model_modules.model_modules.entries;
        let mut i: usize = 0;
        proof {
            assert(entries@.take(0) =~= Seq::<(String, ModelModule)>::empty());
            assert(paths_of(files@) =~= base + model_paths(entries@.take(0), config.extension@));
        }
        while i < entries.len()
            invariant
                i <= entries@.len(),
                base == paths_of(old(files)@),
                entries == &self.ir.model_modules.model_modules.entries,
                paths_of(files@) == base + model_paths(entries@.take(i as int), config.extension@),
            decreases entries@.len() - i,
        {
            proof {
                assert(entries@.take(i + 1).drop_last() =~= entries@.take(i as int));
                assert(entries@.take(i + 1).last() == entries@[i as int]);
            }
            let name = &entries[i].0;
            let module = &entries[i].1;
            let mut ctx = String::new();
            ctx.append("{\"this_module\":");
            let mut tm: Vec<String> = Vec::new();
            tm.push(String::from_str("models"));
            tm.push(name.clone());
            strs_arr_into(&mut ctx, &tm);
            ctx.append(",\"used_types\":");
            let used = module.used_types();
            type_json_arr_into(&mut ctx, &used);
            ctx.append(",\"model_module\":");
            model_module_into(&mut ctx, module);
            ctx.append("}");
            match render_template(env, "model", ctx.as_str()) {
                Ok(content) => {
                    let mut path = String::from_str("models/");
                    path.append(name.as_str());
                    path.append(".");
                    path.append(config.extension.as_str());
                    proof {
                        assert(path@ =~= model_file_path(name@, config.extension@));
                    }
                    let ghost prev = paths_of(files@);
                    files.push(File { path, content });
                    proof {
                        assert(paths_of(files@) =~= prev.push(model_file_path(
                            name@,
                            config.extension@,
                        )));
                        assert(paths_of(files@) =~= base + model_paths(
                            entries@.take(i + 1),
                            config.extension@,
                        ));
                    }
                },
                Err(msg) => {
                    return Err(Error::TemplateError(msg));
                },
            }
            i = i + 1;
        }
        proof {
            assert(entries@.take(entries@.len() as int) =~= entries@);
        }
        Ok(())
    }

    /// Renders the whole namespace tree from the root.
    fn add_query_files(
        &self,
        env: &minijinja::Environment,
        config: &FileGenConfig,
        files: &mut Vec<File>,
    ) -> (r: Result<(), Error>)
        ensures
            r is Ok ==> paths_of(final(files)@) == paths_of(old(files)@) + query_paths(
                self.ir.query_namespace,
                Seq::empty(),
                config.extension@,
                config.directory_entrypoint@,
            ),
            r matches Err(e) ==> e is TemplateError,
    {
        let mut segs: Vec<String> = Vec::new();
        proof {
            assert(segs.deep_view() =~= Seq::<Seq<char>>::empty());
        }
        self.add_query_namespace(env, config, &self.ir.query_namespace, &mut segs, files)
    }

    /// Renders the target's auxiliary files, each given the whole
    /// intermediate representation.
    fn add_aux_files(
        &self,
        env: &minijinja::Environment,
        other_templates: &Vec<File>,
        files: &mut Vec<File>,
    ) -> (r: Result<(), Error>)
        ensures
            r is Ok ==> paths_of(final(files)@) == paths_of(old(files)@) + aux_paths(
                other_templates@,
            ),
            r matches Err(e) ==> e is TemplateError,
    {
        let ghost base = paths_of(old(files)@);
        let mut ir_ctx = String::new();
        ir_ctx.append("{\"ir\":{\"model_modules\":");
        model_module_obj_into(&mut ir_ctx, &self.ir.model_modules.model_modules.entries);
        ir_ctx.append(",\"query_namespace\":");
        namespace_into(&mut ir_ctx, &self.ir.query_namespace);
        ir_ctx.append("}}");
        let mut j: usize = 0;
        proof {
            assert(other_templates@.take(0) =~= Seq::<File>::empty());
            assert(paths_of(files@) =~= base + aux_paths(other_templates@.take(0)));
        }
        while j < other_templates.len()
            invariant
                j <= other_templates@.len(),
                base == paths_of(old(files)@),
                paths_of(files@) == base + aux_paths(other_templates@.take(j as int)),
            decreases other_templates@.len() - j,
        {
            proof {
                assert(other_templates@.take(j + 1).drop_last() =~= other_templates@.take(
                    j as int,
                ));
                assert(other_templates@.take(j + 1).last() == other_templates@[j as int]);
            }
            let aux = &other_templates[j];
            match render_named(env, aux.path.as_str(), aux.content.as_str(), ir_ctx.as_str()) {
                Ok(content) => {
                    let ghost prev = paths_of(files@);
                    files.push(File { path: aux.path.clone(), content });
                    proof {
                        assert(paths_of(files@) =~= prev.push(aux.path@));
                        assert(aux_paths(other_templates@.take(j + 1)) =~= aux_paths(
                            other_templates@.take(j as int),
                        ) + seq![aux.path@]);
                        assert(paths_of(files@) =~= base + aux_paths(
                            other_templates@.take(j + 1),
                        ));
                    }
                },
                Err(msg) => {
                    return Err(Error::TemplateError(msg));
                },
            }
            j = j + 1;
        }
        proof {
            assert(other_templates@.take(other_templates@.len() as int) =~= other_templates@);
        }
        Ok(())
    }

    /// Renders the models-directory entrypoint.
    fn add_model_entrypoint(
        &self,
        env: &minijinja::Environment,
        config: &FileGenConfig,
        files: &mut Vec<File>,
    ) -> (r: Result<(), Error>)
        ensures
            r is Ok ==> paths_of(final(files)@) == paths_of(old(files)@) + seq!["models/"@
                + config.model_dir_entrypoint@],
            r matches Err(e) ==> e is TemplateError,
    {
        let mut ctx = String::new();
        ctx.append("{\"this_module\":");
        let mut tm: Vec<String> = Vec::new();
        tm.push(String::from_str("models"));
        tm.push(config.model_dir_entrypoint.clone());
        strs_arr_into(&mut ctx, &tm);
        ctx.append(",\"model_modules\":");
        model_module_obj_into(&mut ctx, &self.ir.model_modules.model_modules.entries);
        ctx.append("}");
        match render_template(env, "model_init", ctx.as_str()) {
            Ok(content) => {
                let mut path = String::from_str("models/");
                path.append(config.model_dir_entrypoint.as_str());
                proof {
                    assert(path@ =~= "models/"@ + config.model_dir_entrypoint@);
                }
                let ghost prev = paths_of(files@);
                files.push(File { path, content });
                proof {
                    assert(paths_of(files@) =~= prev.push("models/"@
                        + config.model_dir_entrypoint@));
                    assert(prev.push("models/"@ + config.model_dir_entrypoint@) =~= prev
                        + seq!["models/"@ + config.model_dir_entrypoint@]);
                }
                Ok(())
            },
            Err(msg) => Err(Error::TemplateError(msg)),
        }
    }

    /// Renders one namespace node and its subtree, extending `files` by
    /// exactly the subtree's paths and leaving `segs` as it found them.
    fn add_query_namespace(
        &self,
        env: &minijinja::Environment,
        config: &FileGenConfig,
        node: &QueryNamespace,
        segs: &mut Vec<String>,
        files: &mut Vec<File>,
    ) -> (r: Result<(), Error>)
        ensures
            final(segs)@ == old(segs)@,
            r is Ok ==> paths_of(final(files)@) == paths_of(old(files)@) + query_paths(
                *node,
                old(segs).deep_view(),
                config.extension@,
                config.directory_entrypoint@,
            ),
            r matches Err(e) ==> e is TemplateError,
        decreases *node,
    {
        let mut ctx = String::new();
        ctx.append("{\"this_module\":");
        strs_arr_into(&mut ctx, segs);
        ctx.append(",\"used_types\":");
        let used = node.used_types();
        type_json_arr_into(&mut ctx, &used);
        ctx.append(",\"query_namespace\":");
        namespace_into(&mut ctx, node);
        ctx.append("}");
        let joined = join_slash_exec(segs);
        let path = if node.subnamespaces.len() == 0 {
            let mut p = joined;
            p.append(".");
            p.append(config.extension.as_str());
            proof {
                assert(p@ =~= node_path(
                    old(segs).deep_view(),
                    node.subnamespaces@.len() > 0,
                    config.extension@,
                    config.directory_entrypoint@,
                ));
            }
            p
        } else {
            let mut p = joined;
            p.append("/");
            p.append(config.directory_entrypoint.as_str());
            proof {
                assert(p@ =~= node_path(
                    old(segs).deep_view(),
                    node.subnamespaces@.len() > 0,
                    config.extension@,
                    config.directory_entrypoint@,
                ));
            }
            p
        };
        match render_template(env, "query", ctx.as_str()) {
            Ok(content) => {
                files.push(File { path, content });
            },
            Err(msg) => {
                return Err(Error::TemplateError(msg));
            },
        }
        let ghost base = paths_of(old(files)@);
        let ghost segs0 = old(segs).deep_view();
        proof {
            assert(paths_of(files@) =~= base + seq![node_path(
                segs0,
                node.subnamespaces@.len() > 0,
                config.extension@,
                config.directory_entrypoint@,
            )]);
            assert(children_paths(*node, 0, segs0, config.extension@, config.directory_entrypoint@)
                =~= Seq::<Seq<char>>::empty());
        }
        let mut i: usize = 0;
        while i < node.subnamespaces.len()
            invariant
                i <= node.subnamespaces@.len(),
                segs@ == old(segs)@,
                segs0 == old(segs).deep_view(),
                base == paths_of(old(files)@),
                paths_of(files@) == base + seq![node_path(
                    segs0,
                    node.subnamespaces@.len() > 0,
                    config.extension@,
                    config.directory_entrypoint@,
                )] + children_paths(
                    *node,
                    i as int,
                    segs0,
                    config.extension@,
                    config.directory_entrypoint@,
                ),
            decreases node.subnamespaces@.len() - i,
        {
            let child_name = &node.subnamespaces[i].0;
            let child = &node.subnamespaces[i].1;
            segs.push(child_name.clone());
            proof {
                assert(segs.deep_view() =~= segs0.push(node.subnamespaces@[i as int].0@));
            }
            let ghost before_child = paths_of(files@);
            match self.add_query_namespace(env, config, child, segs, files) {
                Ok(_) => {},
                Err(e) => {
                    segs.pop();
                    proof {
                        assert(segs@ =~= old(segs)@);
                    }
                    return Err(e);
                },
            }
            segs.pop();
            proof {
                assert(segs@ =~= old(segs)@);
                assert(paths_of(files@) =~= base + seq![node_path(
                    segs0,
                    node.subnamespaces@.len() > 0,
                    config.extension@,
                    config.directory_entrypoint@,
                )] + children_paths(
                    *node,
                    i + 1,
                    segs0,
                    config.extension@,
                    config.directory_entrypoint@,
                ));
            }
            i = i + 1;
        }
        proof {
            assert(paths_of(files@) =~= paths_of(old(files)@) + query_paths(
                *node,
                segs0,
                config.extension@,
                config.directory_entrypoint@,
            ));
        }
        Ok(())
    }
}

} // verus!

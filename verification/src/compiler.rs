//! The struct-tree compiler: what is derived from a valid schema before any
//! code is emitted.
//!
//! - For each node a compact type, named after the node's type.
//! - The restart comparison: the paths of the fields that are tagged as
//!   triggering a restart, collected over the whole tree.
//! - The projections: for each node below the root and each of its
//!   ancestors, the path of fields that leads from the ancestor to it.
use crate::schema::FieldKind;
use crate::schema::SchemaError;
use crate::schema::SchemaNode;
use crate::text::texts;
use vstd::prelude::*;
use vstd::string::StringExecFns;

verus! {

/// A path of field names, outermost first.
pub type PathModel = Seq<Seq<char>>;

/// The views of a sequence of paths.
pub open spec fn path_texts(paths: Seq<Vec<String>>) -> Seq<PathModel> {
    paths.map_values(|path: Vec<String>| texts(path@))
}

/// One step from a node into a field that holds a node: the field's name
/// and the type of the node that has the field.
pub struct Step {
    pub field: String,
    pub owner: String,
}

/// A step with its names as sequences of characters.
pub struct StepModel {
    pub field: Seq<char>,
    pub owner: Seq<char>,
}

impl View for Step {
    type V = StepModel;

    open spec fn view(&self) -> StepModel {
        StepModel { field: self.field@, owner: self.owner@ }
    }
}

/// The views of a sequence of steps.
pub open spec fn step_views(steps: Seq<Step>) -> Seq<StepModel> {
    steps.map_values(|step: Step| step@)
}

/// The way from an ancestor to a node below it.
pub struct Projection {
    /// The type of the node that the path starts at.
    pub ancestor: String,
    /// The type of the node that the path leads to.
    pub descendant: String,
    /// The fields to walk, outermost first; never empty.
    pub path: Vec<String>,
}

/// A projection with its names as sequences of characters.
pub struct ProjectionModel {
    pub ancestor: Seq<char>,
    pub descendant: Seq<char>,
    pub path: PathModel,
}

impl View for Projection {
    type V = ProjectionModel;

    open spec fn view(&self) -> ProjectionModel {
        ProjectionModel {
            ancestor: self.ancestor@,
            descendant: self.descendant@,
            path: texts(self.path@),
        }
    }
}

/// The views of a sequence of projections.
pub open spec fn projection_views(projections: Seq<Projection>) -> Seq<ProjectionModel> {
    projections.map_values(|projection: Projection| projection@)
}

/// The name of the compact type of a node type.
pub open spec fn compact_name(ident: Seq<char>) -> Seq<char> {
    "Compact"@ + ident
}

/// The paths of the fields tagged as triggering a restart, in the node
/// reached by `lineage` and below it: fields in order, a field before the
/// fields of the node it holds.
pub open spec fn restart_paths(node: SchemaNode, lineage: PathModel) -> Seq<PathModel>
    decreases node, node.fields.len() + 1,
{
    restart_paths_below(node, lineage, node.fields.len() as nat)
}

/// The part of [`restart_paths`] that the first `upto` fields give.
pub open spec fn restart_paths_below(node: SchemaNode, lineage: PathModel, upto: nat) -> Seq<
    PathModel,
>
    decreases node, upto,
{
    if upto == 0 || upto > node.fields.len() {
        Seq::empty()
    } else {
        let field = node.fields[upto - 1];
        let path = lineage.push(field.name@);
        restart_paths_below(node, lineage, (upto - 1) as nat) + (if field.restart {
            seq![path]
        } else {
            Seq::empty()
        }) + (match field.kind {
            FieldKind::Nested(child) => restart_paths(child, path),
            FieldKind::Leaf(_) => Seq::empty(),
        })
    }
}

/// The projection from the ancestor at position `start` of `lineage` to
/// the node that the whole lineage leads to.
pub open spec fn projection_from(lineage: Seq<StepModel>, start: int, descendant: Seq<char>) -> ProjectionModel {
    ProjectionModel {
        ancestor: lineage[start].owner,
        descendant,
        path: Seq::new((lineage.len() - start) as nat, |k: int| lineage[start + k].field),
    }
}

/// The projections to the node that `lineage` leads to, one from each of
/// its ancestors, the nearest first.
pub open spec fn ancestor_projections(lineage: Seq<StepModel>, descendant: Seq<char>) -> Seq<
    ProjectionModel,
> {
    Seq::new(
        lineage.len(),
        |k: int| projection_from(lineage, lineage.len() - 1 - k, descendant),
    )
}

/// The projections to every node below `node`, where `lineage` leads from
/// the root to `node`: for each field that holds a node, the projections to
/// that node, then those to the nodes below it.
pub open spec fn projections(node: SchemaNode, lineage: Seq<StepModel>) -> Seq<ProjectionModel>
    decreases node, node.fields.len() + 1,
{
    projections_below(node, lineage, node.fields.len() as nat)
}

/// The part of [`projections`] that the first `upto` fields give.
pub open spec fn projections_below(node: SchemaNode, lineage: Seq<StepModel>, upto: nat) -> Seq<
    ProjectionModel,
>
    decreases node, upto,
{
    if upto == 0 || upto > node.fields.len() {
        Seq::empty()
    } else {
        let field = node.fields[upto - 1];
        projections_below(node, lineage, (upto - 1) as nat) + (match field.kind {
            FieldKind::Nested(child) => {
                let longer = lineage.push(StepModel { field: field.name@, owner: node.ident@ });
                ancestor_projections(longer, child.ident@) + projections(child, longer)
            },
            FieldKind::Leaf(_) => Seq::empty(),
        })
    }
}

/// The name of the compact type that mirrors the node type `ident`.
pub fn compact_ty_name(ident: &String) -> (name: String)
    ensures
        name@ == compact_name(ident@),
{
    String::from_str("Compact").concat(ident.as_str())
}

/// A copy of a path.
pub fn clone_path(path: &Vec<String>) -> (copy: Vec<String>)
    ensures
        texts(copy@) == texts(path@),
{
    let mut copy: Vec<String> = Vec::new();
    let mut at: usize = 0;
    while at < path.len()
        invariant
            at <= path.len(),
            copy.len() == at,
            forall|i: int| 0 <= i < at ==> #[trigger] copy[i]@ == path[i]@,
        decreases path.len() - at,
    {
        copy.push(path[at].clone());
        at += 1;
    }
    assert(texts(copy@) =~= texts(path@));
    copy
}

/// A copy of a path with one more field at its end.
pub fn extend_path(path: &Vec<String>, field: &String) -> (longer: Vec<String>)
    ensures
        texts(longer@) == texts(path@).push(field@),
{
    let mut longer = clone_path(path);
    longer.push(field.clone());
    assert(texts(longer@) =~= texts(path@).push(field@));
    longer
}

/// Collect the restart paths of `node` and of the nodes below it.
pub fn build_restart_comparison_for_struct(
    lineage: &Vec<String>,
    output: &mut Vec<Vec<String>>,
    node: &SchemaNode,
)
    ensures
        path_texts(final(output)@) == path_texts(old(output)@) + restart_paths(
            *node,
            texts(lineage@),
        ),
    decreases node, node.fields.len() + 1,
{
    let mut at: usize = 0;
    assert(path_texts(output@) =~= path_texts(old(output)@) + restart_paths_below(
        *node,
        texts(lineage@),
        0,
    ));
    while at < node.fields.len()
        invariant
            at <= node.fields.len(),
            path_texts(output@) == path_texts(old(output)@) + restart_paths_below(
                *node,
                texts(lineage@),
                at as nat,
            ),
        decreases node.fields.len() - at,
    {
        let field = &node.fields[at];
        let path = extend_path(lineage, &field.name);
        let ghost before = path_texts(output@);
        if field.restart {
            output.push(clone_path(&path));
            assert(path_texts(output@) =~= before + seq![texts(path@)]);
        }
        let ghost middle = path_texts(output@);
        match &field.kind {
            FieldKind::Nested(child) => {
                build_restart_comparison_for_struct(&path, output, child);
            },
            FieldKind::Leaf(_) => {
                assert(path_texts(output@) =~= middle + Seq::<PathModel>::empty());
            },
        }
        assert(path_texts(output@) =~= path_texts(old(output)@) + restart_paths_below(
            *node,
            texts(lineage@),
            (at + 1) as nat,
        ));
        at += 1;
    }
}

/// The restart comparison of a schema: the paths whose values are compared.
/// Where it is empty a restart is never required.
pub fn build_restart_comparison(root: &SchemaNode) -> (paths: Vec<Vec<String>>)
    ensures
        path_texts(paths@) == restart_paths(*root, Seq::empty()),
{
    let lineage: Vec<String> = Vec::new();
    let mut output: Vec<Vec<String>> = Vec::new();
    assert(texts(lineage@) =~= Seq::<Seq<char>>::empty());
    assert(path_texts(output@) =~= Seq::<PathModel>::empty());
    build_restart_comparison_for_struct(&lineage, &mut output, root);
    assert(path_texts(output@) =~= restart_paths(*root, Seq::empty()));
    output
}

/// A copy of a lineage with one more step at its end.
pub fn extend_lineage(lineage: &Vec<Step>, field: &String, owner: &String) -> (longer: Vec<Step>)
    ensures
        step_views(longer@) == step_views(lineage@).push(
            StepModel { field: field@, owner: owner@ },
        ),
{
    let mut longer: Vec<Step> = Vec::new();
    let mut at: usize = 0;
    while at < lineage.len()
        invariant
            at <= lineage.len(),
            longer.len() == at,
            forall|i: int| 0 <= i < at ==> #[trigger] longer[i]@ == lineage[i]@,
        decreases lineage.len() - at,
    {
        longer.push(Step { field: lineage[at].field.clone(), owner: lineage[at].owner.clone() });
        at += 1;
    }
    longer.push(Step { field: field.clone(), owner: owner.clone() });
    assert(step_views(longer@) =~= step_views(lineage@).push(
        StepModel { field: field@, owner: owner@ },
    ));
    longer
}

/// The projection from the ancestor at position `start` of the lineage to
/// the node of type `descendant` that the lineage leads to.
pub fn impl_as_field(lineage: &Vec<Step>, start: usize, descendant: &String) -> (projection:
    Projection)
    requires
        start < lineage.len(),
    ensures
        projection@ == projection_from(step_views(lineage@), start as int, descendant@),
{
    let mut path: Vec<String> = Vec::new();
    let mut at: usize = start;
    while at < lineage.len()
        invariant
            start <= at <= lineage.len(),
            path.len() == at - start,
            forall|k: int| 0 <= k < at - start ==> #[trigger] path[k]@ == lineage[start + k].field@,
        decreases lineage.len() - at,
    {
        path.push(lineage[at].field.clone());
        at += 1;
    }
    let projection = Projection {
        ancestor: lineage[start].owner.clone(),
        descendant: descendant.clone(),
        path,
    };
    assert(projection@.path =~= projection_from(
        step_views(lineage@),
        start as int,
        descendant@,
    ).path);
    projection
}

/// Append the projections to the node that `lineage` leads to, one from
/// each of its ancestors, the nearest first.
pub fn impl_as_field_for_lineage(
    lineage: &Vec<Step>,
    descendant: &String,
    output: &mut Vec<Projection>,
)
    ensures
        projection_views(final(output)@) == projection_views(old(output)@) + ancestor_projections(
            step_views(lineage@),
            descendant@,
        ),
{
    let mut done: usize = 0;
    assert(projection_views(output@) =~= projection_views(old(output)@));
    while done < lineage.len()
        invariant
            done <= lineage.len(),
            output.len() == old(output).len() + done,
            projection_views(output@).subrange(0, old(output).len() as int) == projection_views(
                old(output)@,
            ),
            forall|k: int|
                0 <= k < done ==> #[trigger] output[old(output).len() + k]@ == projection_from(
                    step_views(lineage@),
                    lineage.len() - 1 - k,
                    descendant@,
                ),
        decreases lineage.len() - done,
    {
        let ghost before = output@;
        let projection = impl_as_field(lineage, lineage.len() - 1 - done, descendant);
        output.push(projection);
        assert(projection_views(output@).subrange(0, old(output).len() as int)
            =~= projection_views(before).subrange(0, old(output).len() as int));
        done += 1;
    }
    assert(projection_views(output@) =~= projection_views(old(output)@) + ancestor_projections(
        step_views(lineage@),
        descendant@,
    )) by {
        let whole = projection_views(output@);
        let prior = projection_views(old(output)@);
        assert(whole.subrange(0, prior.len() as int) == prior);
        assert forall|i: int| 0 <= i < whole.len() implies whole[i] == (prior
            + ancestor_projections(step_views(lineage@), descendant@))[i] by {
            if i < prior.len() {
                assert(whole.subrange(0, prior.len() as int)[i] == whole[i]);
            } else {
                assert(output[old(output).len() + (i - prior.len())]@ == whole[i]);
            }
        }
    }
}

/// Collect the projections to every node below `node`.
pub fn generate_projections(node: &SchemaNode, lineage: &Vec<Step>, output: &mut Vec<Projection>)
    ensures
        projection_views(final(output)@) == projection_views(old(output)@) + projections(
            *node,
            step_views(lineage@),
        ),
    decreases node, node.fields.len() + 1,
{
    let mut at: usize = 0;
    assert(projection_views(output@) =~= projection_views(old(output)@) + projections_below(
        *node,
        step_views(lineage@),
        0,
    ));
    while at < node.fields.len()
        invariant
            at <= node.fields.len(),
            projection_views(output@) == projection_views(old(output)@) + projections_below(
                *node,
                step_views(lineage@),
                at as nat,
            ),
        decreases node.fields.len() - at,
    {
        let field = &node.fields[at];
        let ghost before = projection_views(output@);
        match &field.kind {
            FieldKind::Nested(child) => {
                let longer = extend_lineage(lineage, &field.name, &node.ident);
                impl_as_field_for_lineage(&longer, &child.ident, output);
                generate_projections(child, &longer, output);
            },
            FieldKind::Leaf(_) => {
                assert(projection_views(output@) =~= before + Seq::<ProjectionModel>::empty());
            },
        }
        assert(projection_views(output@) =~= projection_views(old(output)@) + projections_below(
            *node,
            step_views(lineage@),
            (at + 1) as nat,
        ));
        at += 1;
    }
}

/// What the compiler derives from a valid schema.
pub struct CompiledSchema {
    /// The schema itself.
    pub root: SchemaNode,
    /// The paths that the restart comparison compares.
    pub restart: Vec<Vec<String>>,
    /// The projections from every ancestor to every node below it.
    pub projections: Vec<Projection>,
}

impl CompiledSchema {
    /// Whether the parts are those that the schema gives.
    pub open spec fn wf(&self) -> bool {
        &&& self.root.valid()
        &&& path_texts(self.restart@) == restart_paths(self.root, Seq::empty())
        &&& projection_views(self.projections@) == projections(self.root, Seq::empty())
    }
}

/// Compile a schema: refuse it where it is not valid, before anything is
/// derived from it, and derive the restart comparison and the projections
/// where it is.
pub fn compile(root: SchemaNode) -> (compiled: Result<CompiledSchema, SchemaError>)
    ensures
        compiled is Ok <==> root.valid(),
        compiled matches Ok(c) ==> c.root == root && c.wf(),
        compiled matches Err(e) ==> root.first_error() == Some(e@),
{
    match root.validate() {
        Ok(()) => {},
        Err(e) => {
            return Err(e);
        },
    }
    let restart = build_restart_comparison(&root);
    let lineage: Vec<Step> = Vec::new();
    let mut found: Vec<Projection> = Vec::new();
    assert(step_views(lineage@) =~= Seq::<StepModel>::empty());
    assert(projection_views(found@) =~= Seq::<ProjectionModel>::empty());
    generate_projections(&root, &lineage, &mut found);
    assert(projection_views(found@) =~= projections(root, Seq::empty()));
    Ok(CompiledSchema { root, restart, projections: found })
}

} // verus!

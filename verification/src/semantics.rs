//! What ties the compiler's output to the instances of a schema: the
//! restart comparison over the collected paths says what the tags mean.
use crate::compiler::ancestor_projections;
use crate::compiler::projection_from;
use crate::compiler::projections;
use crate::compiler::projections_below;
use crate::compiler::restart_paths;
use crate::compiler::ProjectionModel;
use crate::compiler::StepModel;
use crate::compiler::restart_paths_below;
use crate::compiler::PathModel;
use crate::instance::conforms;
use crate::instance::subtree_at;
use crate::instance::lemma_covered_node_differs;
use crate::instance::lemma_tag_is_monotone;
use crate::instance::tagged_differs;
use crate::instance::Tree;
use crate::schema::FieldKind;
use crate::schema::SchemaNode;
use crate::text::all_distinct;
use crate::text::lemma_all_distinct_pairs;
use crate::text::lemma_distinct_parts;
use vstd::prelude::*;

verus! {

/// The value that `path` leads to in an instance of `node`: each name
/// picks the first field of that name; but for the last, the field has to
/// hold a node.
pub open spec fn value_at(node: SchemaNode, tree: Tree, path: PathModel) -> Option<Tree>
    decreases path.len(),
{
    if path.len() == 0 {
        Some(tree)
    } else {
        match node.field_names().index_of_first(path[0]) {
            Some(index) => match node.fields[index].kind {
                FieldKind::Nested(child) => value_at(child, tree->Node_0[index], path.drop_first()),
                FieldKind::Leaf(_) => if path.len() == 1 {
                    Some(tree->Node_0[index])
                } else {
                    None
                },
            },
            None => None,
        }
    }
}

/// What the comparison over `paths` computes, where each path is read
/// from its position `skip` on: whether the two instances differ at the
/// end of one of the paths.
pub open spec fn paths_differ(
    node: SchemaNode,
    left: Tree,
    right: Tree,
    paths: Seq<PathModel>,
    skip: int,
) -> bool {
    exists|k: int|
        0 <= k < paths.len() && value_at(
            node,
            left,
            (#[trigger] paths[k]).subrange(skip, paths[k].len() as int),
        ) != value_at(node, right, paths[k].subrange(skip, paths[k].len() as int))
}

/// What one field adds to the question whether two instances differ in a
/// tagged leaf.
pub open spec fn field_differs(node: SchemaNode, left: Tree, right: Tree, i: int) -> bool {
    match node.fields[i].kind {
        FieldKind::Leaf(_) => node.fields[i].restart && left->Node_0[i] != right->Node_0[i],
        FieldKind::Nested(child) => tagged_differs(
            child,
            left->Node_0[i],
            right->Node_0[i],
            node.fields[i].restart,
        ),
    }
}

/// Each collected path starts with the lineage and holds at least one
/// field more.
pub proof fn lemma_paths_extend_lineage(node: SchemaNode, lineage: PathModel, upto: nat)
    requires
        upto <= node.fields.len(),
    ensures
        forall|k: int|
            0 <= k < restart_paths_below(node, lineage, upto).len() ==> {
                let path = #[trigger] restart_paths_below(node, lineage, upto)[k];
                path.len() > lineage.len() && path.subrange(0, lineage.len() as int) == lineage
            },
    decreases node, upto,
{
    if upto > 0 {
        let field = node.fields[upto - 1];
        let path = lineage.push(field.name@);
        let prior = restart_paths_below(node, lineage, (upto - 1) as nat);
        let own: Seq<PathModel> = if field.restart {
            seq![path]
        } else {
            Seq::empty()
        };
        let nested: Seq<PathModel> = match field.kind {
            FieldKind::Nested(child) => restart_paths(child, path),
            FieldKind::Leaf(_) => Seq::empty(),
        };
        lemma_paths_extend_lineage(node, lineage, (upto - 1) as nat);
        match field.kind {
            FieldKind::Nested(child) => {
                lemma_paths_extend_lineage(child, path, child.fields.len() as nat);
                assert(nested == restart_paths_below(child, path, child.fields.len() as nat));
            },
            FieldKind::Leaf(_) => {},
        }
        let all = restart_paths_below(node, lineage, upto);
        assert(all == prior + own + nested);
        assert forall|k: int| 0 <= k < all.len() implies {
            let found = #[trigger] all[k];
            found.len() > lineage.len() && found.subrange(0, lineage.len() as int) == lineage
        } by {
            let found = all[k];
            if k < prior.len() {
                assert(found == prior[k]);
            } else if k < prior.len() + own.len() {
                assert(found == path);
                assert(path.subrange(0, lineage.len() as int) =~= lineage);
            } else {
                let inner = k - prior.len() - own.len();
                assert(found == nested[inner]);
                let child = field.kind->Nested_0;
                assert(found == restart_paths_below(child, path, child.fields.len() as nat)[inner]);
                assert(found.len() > path.len());
                assert(found.subrange(0, path.len() as int) == path);
                assert(found.subrange(0, lineage.len() as int) =~= found.subrange(
                    0,
                    path.len() as int,
                ).subrange(0, lineage.len() as int));
                assert(path.subrange(0, lineage.len() as int) =~= lineage);
            }
        }
    }
}

/// The comparison over the paths collected from a node is true exactly
/// when two instances of the node differ in a leaf that is tagged, or that
/// lies below a tagged field.
pub proof fn lemma_restart_paths_mean_tags(
    node: SchemaNode,
    left: Tree,
    right: Tree,
    lineage: PathModel,
)
    requires
        node.fields_distinct(),
        conforms(node, left),
        conforms(node, right),
    ensures
        paths_differ(node, left, right, restart_paths(node, lineage), lineage.len() as int)
            <==> tagged_differs(node, left, right, false),
    decreases node, node.fields.len() + 1,
{
    let count = node.fields.len() as nat;
    lemma_restart_paths_below_mean_tags(node, left, right, lineage, count);
    if tagged_differs(node, left, right, false) {
        let i = choose|i: int|
            0 <= i < node.fields.len() && match (#[trigger] node.fields[i]).kind {
                FieldKind::Leaf(_) => (false || node.fields[i].restart) && left->Node_0[i]
                    != right->Node_0[i],
                FieldKind::Nested(child) => tagged_differs(
                    child,
                    left->Node_0[i],
                    right->Node_0[i],
                    false || node.fields[i].restart,
                ),
            };
        assert(field_differs(node, left, right, i));
    }
    if exists|i: int| 0 <= i < count && field_differs(node, left, right, i) {
        let i = choose|i: int| 0 <= i < count && field_differs(node, left, right, i);
        assert(match (#[trigger] node.fields[i]).kind {
            FieldKind::Leaf(_) => (false || node.fields[i].restart) && left->Node_0[i]
                != right->Node_0[i],
            FieldKind::Nested(child) => tagged_differs(
                child,
                left->Node_0[i],
                right->Node_0[i],
                false || node.fields[i].restart,
            ),
        });
    }
}

/// The same for the paths that the first `upto` fields give.
pub proof fn lemma_restart_paths_below_mean_tags(
    node: SchemaNode,
    left: Tree,
    right: Tree,
    lineage: PathModel,
    upto: nat,
)
    requires
        node.fields_distinct(),
        conforms(node, left),
        conforms(node, right),
        upto <= node.fields.len(),
    ensures
        paths_differ(node, left, right, restart_paths_below(node, lineage, upto), lineage.len() as int)
            <==> exists|i: int| 0 <= i < upto && field_differs(node, left, right, i),
    decreases node, upto,
{
    let skip = lineage.len() as int;
    if upto == 0 {
        assert(restart_paths_below(node, lineage, upto).len() == 0);
    } else {
        let at = upto - 1;
        let field = node.fields[at];
        let path = lineage.push(field.name@);
        let prior = restart_paths_below(node, lineage, at as nat);
        let own: Seq<PathModel> = if field.restart {
            seq![path]
        } else {
            Seq::empty()
        };
        let nested: Seq<PathModel> = match field.kind {
            FieldKind::Nested(child) => restart_paths(child, path),
            FieldKind::Leaf(_) => Seq::empty(),
        };
        let all = restart_paths_below(node, lineage, upto);
        assert(all == prior + own + nested);
        lemma_restart_paths_below_mean_tags(node, left, right, lineage, at as nat);

        // The field's name picks the field.
        let names = node.field_names();
        names.index_of_first_ensures(field.name@);
        assert(names[at] == field.name@);
        assert(names.contains(field.name@));
        let picked = names.index_of_first(field.name@)->Some_0;
        assert(picked == at) by {
            if picked != at {
                assert(!crate::text::repeats_at(names, at));
                assert(!crate::text::repeats_at(names, picked));
                assert(names[picked] == names[at]);
            }
        }
        let mine = left->Node_0[at];
        let theirs = right->Node_0[at];
        assert(match (#[trigger] node.fields[at]).kind {
            FieldKind::Leaf(_) => mine is Leaf && theirs is Leaf,
            FieldKind::Nested(child) => conforms(child, mine) && conforms(child, theirs),
        });

        // What a path of the field's own, and one from below it, compare.
        let own_suffix = path.subrange(skip, path.len() as int);
        assert(own_suffix =~= seq![field.name@]);
        assert(own_suffix.drop_first() =~= Seq::<Seq<char>>::empty());
        assert(names.index_of_first(own_suffix[0]) == Some(at as int));
        match field.kind {
            FieldKind::Nested(child) => {
                assert(value_at(child, mine, own_suffix.drop_first()) == Some(mine));
                assert(value_at(child, theirs, own_suffix.drop_first()) == Some(theirs));
            },
            FieldKind::Leaf(_) => {},
        }
        assert(value_at(node, left, own_suffix) == Some(mine));
        assert(value_at(node, right, own_suffix) == Some(theirs));

        let below: bool = match field.kind {
            FieldKind::Nested(child) => paths_differ(child, mine, theirs, nested, skip + 1),
            FieldKind::Leaf(_) => false,
        };
        match field.kind {
            FieldKind::Nested(child) => {
                node.lemma_fields_distinct_at(at);
                lemma_restart_paths_mean_tags(child, mine, theirs, path);
                lemma_paths_extend_lineage(child, path, child.fields.len() as nat);
                assert(nested == restart_paths_below(child, path, child.fields.len() as nat));
                assert forall|k: int| 0 <= k < nested.len() implies value_at(
                    node,
                    left,
                    (#[trigger] nested[k]).subrange(skip, nested[k].len() as int),
                ) == value_at(child, mine, nested[k].subrange(skip + 1, nested[k].len() as int))
                    && value_at(node, right, nested[k].subrange(skip, nested[k].len() as int))
                    == value_at(
                    child,
                    theirs,
                    nested[k].subrange(skip + 1, nested[k].len() as int),
                ) by {
                    let whole = nested[k];
                    assert(whole == restart_paths_below(child, path, child.fields.len() as nat)[k]);
                    assert(whole.len() > path.len());
                    let suffix = whole.subrange(skip, whole.len() as int);
                    assert(whole.subrange(0, path.len() as int) == path);
                    assert(suffix[0] == whole.subrange(0, path.len() as int)[skip]);
                    assert(suffix[0] == field.name@);
                    assert(names.index_of_first(suffix[0]) == Some(at as int));
                    assert(suffix.drop_first() =~= whole.subrange(skip + 1, whole.len() as int));
                }
                if field.restart {
                    lemma_covered_node_differs(child, mine, theirs);
                    if tagged_differs(child, mine, theirs, false) {
                        lemma_tag_is_monotone(child, mine, theirs);
                    }
                }
            },
            FieldKind::Leaf(_) => {},
        }
        let here = (field.restart && mine != theirs) || below;
        assert(here == field_differs(node, left, right, at));

        // The three parts of the paths, one by one.
        if paths_differ(node, left, right, all, skip) {
            let k = choose|k: int|
                0 <= k < all.len() && value_at(
                    node,
                    left,
                    (#[trigger] all[k]).subrange(skip, all[k].len() as int),
                ) != value_at(node, right, all[k].subrange(skip, all[k].len() as int));
            if k < prior.len() {
                assert(all[k] == prior[k]);
                assert(paths_differ(node, left, right, prior, skip));
            } else if k < prior.len() + own.len() {
                assert(all[k] == path);
                assert(here);
            } else {
                let inner = k - prior.len() - own.len();
                assert(all[k] == nested[inner]);
                assert(below);
            }
        }
        if paths_differ(node, left, right, prior, skip) {
            let k = choose|k: int|
                0 <= k < prior.len() && value_at(
                    node,
                    left,
                    (#[trigger] prior[k]).subrange(skip, prior[k].len() as int),
                ) != value_at(node, right, prior[k].subrange(skip, prior[k].len() as int));
            assert(all[k] == prior[k]);
        }
        if field.restart && mine != theirs {
            assert(all[prior.len() as int] == path);
        }
        if below {
            let k = choose|k: int|
                0 <= k < nested.len() && value_at(
                    field.kind->Nested_0,
                    mine,
                    (#[trigger] nested[k]).subrange(skip + 1, nested[k].len() as int),
                ) != value_at(
                    field.kind->Nested_0,
                    theirs,
                    nested[k].subrange(skip + 1, nested[k].len() as int),
                );
            assert(all[prior.len() + own.len() + k] == nested[k]);
        }
        assert(paths_differ(node, left, right, all, skip) <==> (paths_differ(
            node,
            left,
            right,
            prior,
            skip,
        ) || here));
    }
}

/// For a valid schema the comparison that is generated for the root is
/// true exactly when two instances differ in a leaf that is tagged, or
/// that lies below a tagged field: a change of fields without a tag never
/// makes it true.
pub proof fn lemma_restart_comparison(root: SchemaNode, left: Tree, right: Tree)
    requires
        root.valid(),
        conforms(root, left),
        conforms(root, right),
    ensures
        (exists|k: int|
            0 <= k < restart_paths(root, Seq::empty()).len() && value_at(
                root,
                left,
                #[trigger] restart_paths(root, Seq::empty())[k],
            ) != value_at(root, right, restart_paths(root, Seq::empty())[k])) <==> tagged_differs(
            root,
            left,
            right,
            false,
        ),
{
    let paths = restart_paths(root, Seq::empty());
    lemma_restart_paths_mean_tags(root, left, right, Seq::empty());
    assert forall|k: int| 0 <= k < paths.len() implies (#[trigger] paths[k]).subrange(
        0,
        paths[k].len() as int,
    ) == paths[k] by {
        assert(paths[k].subrange(0, paths[k].len() as int) =~= paths[k]);
    }
    if paths_differ(root, left, right, paths, 0) {
        let k = choose|k: int|
            0 <= k < paths.len() && value_at(
                root,
                left,
                (#[trigger] paths[k]).subrange(0, paths[k].len() as int),
            ) != value_at(root, right, paths[k].subrange(0, paths[k].len() as int));
        assert(value_at(root, left, paths[k]) != value_at(root, right, paths[k]));
    }
    if exists|k: int|
        0 <= k < paths.len() && value_at(root, left, #[trigger] paths[k]) != value_at(
            root,
            right,
            paths[k],
        ) {
        let k = choose|k: int|
            0 <= k < paths.len() && value_at(root, left, #[trigger] paths[k]) != value_at(
                root,
                right,
                paths[k],
            );
        assert(paths[k].subrange(0, paths[k].len() as int) == paths[k]);
    }
}

/// The node that `path` leads to from `node`: each name picks the first
/// field of that name, which has to hold a node.
pub open spec fn node_at(node: SchemaNode, path: PathModel) -> Option<SchemaNode>
    decreases path.len(),
{
    if path.len() == 0 {
        Some(node)
    } else {
        match node.field_names().index_of_first(path[0]) {
            Some(index) => match node.fields[index].kind {
                FieldKind::Nested(child) => node_at(child, path.drop_first()),
                FieldKind::Leaf(_) => None,
            },
            None => None,
        }
    }
}

/// The type of the node that `path` leads to from `node`.
pub open spec fn type_at(node: SchemaNode, path: PathModel) -> Option<Seq<char>> {
    match node_at(node, path) {
        Some(found) => Some(found.ident@),
        None => None,
    }
}

/// The fields of a lineage, in order.
pub open spec fn lineage_fields(lineage: Seq<StepModel>) -> PathModel {
    Seq::new(lineage.len(), |k: int| lineage[k].field)
}

/// Whether `lineage` is a way from `root` down to `node`: its fields lead
/// to `node`, and each step names the type of the node that it starts at.
pub open spec fn leads_to(root: SchemaNode, lineage: Seq<StepModel>, node: SchemaNode) -> bool {
    &&& node_at(root, lineage_fields(lineage)) == Some(node)
    &&& forall|k: int|
        0 <= k < lineage.len() ==> type_at(root, lineage_fields(lineage).subrange(0, k)) == Some(
            (#[trigger] lineage[k]).owner,
        )
}

/// Whether a projection is right for `root`: below `root` stands a node
/// of the ancestor's type, and from it the path leads to a node of the
/// descendant's type.
pub open spec fn projects(root: SchemaNode, projection: ProjectionModel) -> bool {
    exists|way: PathModel|
        #[trigger] type_at(root, way) == Some(projection.ancestor) && type_at(
            node_at(root, way)->Some_0,
            projection.path,
        ) == Some(projection.descendant)
}

/// Walking two paths one after the other is walking them joined.
pub proof fn lemma_node_at_joined(node: SchemaNode, first: PathModel, second: PathModel)
    ensures
        node_at(node, first + second) == (match node_at(node, first) {
            Some(middle) => node_at(middle, second),
            None => None,
        }),
    decreases first.len(),
{
    if first.len() == 0 {
        assert(first + second =~= second);
    } else {
        assert((first + second)[0] == first[0]);
        assert((first + second).drop_first() =~= first.drop_first() + second);
        match node.field_names().index_of_first(first[0]) {
            Some(index) => match node.fields[index].kind {
                FieldKind::Nested(child) => {
                    lemma_node_at_joined(child, first.drop_first(), second);
                },
                FieldKind::Leaf(_) => {},
            },
            None => {},
        }
    }
}

/// Every projection that the compiler derives below `node` is right for
/// the root: it starts at a node of its ancestor's type and its path leads
/// to a node of its descendant's type.
pub proof fn lemma_projections_lead_down(
    root: SchemaNode,
    node: SchemaNode,
    lineage: Seq<StepModel>,
    upto: nat,
)
    requires
        root.fields_distinct(),
        node.fields_distinct(),
        leads_to(root, lineage, node),
        upto <= node.fields.len(),
    ensures
        forall|k: int|
            0 <= k < projections_below(node, lineage, upto).len() ==> projects(
                root,
                #[trigger] projections_below(node, lineage, upto)[k],
            ),
    decreases node, upto,
{
    if upto > 0 {
        let at = upto - 1;
        let field = node.fields[at];
        let prior = projections_below(node, lineage, at as nat);
        lemma_projections_lead_down(root, node, lineage, at as nat);
        let all = projections_below(node, lineage, upto);
        match field.kind {
            FieldKind::Leaf(_) => {
                assert(all =~= prior);
            },
            FieldKind::Nested(child) => {
                let step = StepModel { field: field.name@, owner: node.ident@ };
                let longer = lineage.push(step);
                let own = ancestor_projections(longer, child.ident@);
                let below = projections(child, longer);
                assert(all == prior + (own + below));
                let way = lineage_fields(lineage);
                let longer_way = lineage_fields(longer);
                assert(longer_way =~= way + seq![field.name@]);

                // The field's name picks the field.
                let names = node.field_names();
                node.lemma_fields_distinct_at(at);
                names.index_of_first_ensures(field.name@);
                assert(names[at] == field.name@);
                assert(names.contains(field.name@));
                let picked = names.index_of_first(field.name@)->Some_0;
                assert(picked == at) by {
                    if picked != at {
                        assert(!crate::text::repeats_at(names, at));
                        assert(!crate::text::repeats_at(names, picked));
                        assert(names[picked] == names[at]);
                    }
                }
                assert(seq![field.name@].drop_first() =~= Seq::<Seq<char>>::empty());
                assert(node_at(child, seq![field.name@].drop_first()) == Some(child));
                assert(node_at(node, seq![field.name@]) == Some(child));
                lemma_node_at_joined(root, way, seq![field.name@]);
                assert(node_at(root, longer_way) == Some(child));

                // The longer lineage is a way from the root to the child.
                assert forall|k: int| 0 <= k < longer.len() implies type_at(
                    root,
                    longer_way.subrange(0, k),
                ) == Some((#[trigger] longer[k]).owner) by {
                    if k < lineage.len() {
                        assert(longer_way.subrange(0, k) =~= way.subrange(0, k));
                        assert(longer[k] == lineage[k]);
                    } else {
                        assert(longer_way.subrange(0, k) =~= way);
                    }
                }
                assert(leads_to(root, longer, child));
                lemma_projections_lead_down(root, child, longer, child.fields.len() as nat);
                assert(below == projections_below(child, longer, child.fields.len() as nat));

                assert forall|k: int| 0 <= k < all.len() implies projects(
                    root,
                    #[trigger] all[k],
                ) by {
                    if k < prior.len() {
                        assert(all[k] == prior[k]);
                    } else if k < prior.len() + own.len() {
                        let j = k - prior.len();
                        let start = longer.len() - 1 - j;
                        let found = projection_from(longer, start, child.ident@);
                        assert(all[k] == own[j]);
                        assert(own[j] == found);
                        let upper = longer_way.subrange(0, start);
                        let lower = found.path;
                        assert(upper + lower =~= longer_way);
                        lemma_node_at_joined(root, upper, lower);
                        let ancestor = node_at(root, upper)->Some_0;
                        assert(type_at(root, upper) == Some(longer[start].owner));
                        assert(node_at(ancestor, lower) == Some(child));
                        assert(type_at(ancestor, lower) == Some(found.descendant));
                        assert(projects(root, found));
                    } else {
                        let j = k - prior.len() - own.len();
                        assert(all[k] == below[j]);
                    }
                }
            },
        }
    }
}

/// Sharing along a path that leads from a node to a node below it never
/// fails on an instance of the first, and what it gives is the instance of
/// the second that the first holds there.
pub proof fn lemma_share_reaches_descendant(
    ancestor: SchemaNode,
    tree: Tree,
    path: PathModel,
    descendant: SchemaNode,
)
    requires
        conforms(ancestor, tree),
        node_at(ancestor, path) == Some(descendant),
    ensures
        subtree_at(ancestor, tree, path) is Some,
        conforms(descendant, subtree_at(ancestor, tree, path)->Some_0),
        subtree_at(ancestor, tree, path) == value_at(ancestor, tree, path),
    decreases path.len(),
{
    if path.len() > 0 {
        let index = ancestor.field_names().index_of_first(path[0])->Some_0;
        ancestor.field_names().index_of_first_ensures(path[0]);
        assert(match (#[trigger] ancestor.fields[index]).kind {
            FieldKind::Leaf(_) => tree->Node_0[index] is Leaf,
            FieldKind::Nested(child) => conforms(child, tree->Node_0[index]),
        });
        match ancestor.fields[index].kind {
            FieldKind::Nested(child) => {
                lemma_share_reaches_descendant(
                    child,
                    tree->Node_0[index],
                    path.drop_first(),
                    descendant,
                );
            },
            FieldKind::Leaf(_) => {},
        }
    }
}

/// For a valid schema every projection that is generated is right: for an
/// ancestor and a node below it, the projection's path is the path of
/// fields that leads from the one to the other.
pub proof fn lemma_projections(root: SchemaNode)
    requires
        root.valid(),
    ensures
        forall|k: int|
            0 <= k < projections(root, Seq::empty()).len() ==> projects(
                root,
                #[trigger] projections(root, Seq::empty())[k],
            ),
{
    let lineage = Seq::<StepModel>::empty();
    assert(lineage_fields(lineage) =~= Seq::<Seq<char>>::empty());
    assert(leads_to(root, lineage, root));
    lemma_projections_lead_down(root, root, lineage, root.fields.len() as nat);
    assert(projections(root, lineage) == projections_below(
        root,
        lineage,
        root.fields.len() as nat,
    ));
}

/// The steps that `path` takes from `node`, as far as it leads through
/// fields that hold nodes.
pub open spec fn steps_along(node: SchemaNode, path: PathModel) -> Seq<StepModel>
    decreases path.len(),
{
    if path.len() == 0 {
        Seq::empty()
    } else {
        match node.field_names().index_of_first(path[0]) {
            Some(index) => match node.fields[index].kind {
                FieldKind::Nested(child) => seq![StepModel { field: path[0], owner: node.ident@ }]
                    + steps_along(child, path.drop_first()),
                FieldKind::Leaf(_) => Seq::empty(),
            },
            None => Seq::empty(),
        }
    }
}

/// The steps along a path that leads to a node: one for each name of the
/// path, each from the node that the path has reached.
pub proof fn lemma_steps_along(node: SchemaNode, path: PathModel)
    requires
        node_at(node, path) is Some,
    ensures
        steps_along(node, path).len() == path.len(),
        forall|k: int|
            0 <= k < path.len() ==> (#[trigger] steps_along(node, path)[k]).field == path[k]
                && type_at(node, path.subrange(0, k)) == Some(steps_along(node, path)[k].owner),
    decreases path.len(),
{
    if path.len() > 0 {
        let index = node.field_names().index_of_first(path[0])->Some_0;
        let child = node.fields[index].kind->Nested_0;
        let rest = path.drop_first();
        lemma_steps_along(child, rest);
        let steps = steps_along(node, path);
        assert forall|k: int| 0 <= k < path.len() implies (#[trigger] steps[k]).field == path[k]
            && type_at(node, path.subrange(0, k)) == Some(steps[k].owner) by {
            if k == 0 {
                assert(path.subrange(0, 0) =~= Seq::<Seq<char>>::empty());
            } else {
                assert(steps[k] == steps_along(child, rest)[k - 1]);
                let prefix = path.subrange(0, k);
                assert(prefix[0] == path[0]);
                assert(prefix.drop_first() =~= rest.subrange(0, k - 1));
            }
        }
    }
}

/// What a field that holds a node adds to the projections stays among
/// the projections when more fields are taken.
pub proof fn lemma_projections_kept(
    node: SchemaNode,
    lineage: Seq<StepModel>,
    at: int,
    upto: nat,
    found: ProjectionModel,
)
    requires
        0 <= at < upto <= node.fields.len(),
        node.fields[at].kind is Nested,
        ({
            let child = node.fields[at].kind->Nested_0;
            let longer = lineage.push(
                StepModel { field: node.fields[at].name@, owner: node.ident@ },
            );
            ancestor_projections(longer, child.ident@).contains(found) || projections(
                child,
                longer,
            ).contains(found)
        }),
    ensures
        projections_below(node, lineage, upto).contains(found),
    decreases upto,
{
    let all = projections_below(node, lineage, upto);
    let prior = projections_below(node, lineage, (upto - 1) as nat);
    if at < upto - 1 {
        lemma_projections_kept(node, lineage, at, (upto - 1) as nat, found);
        let k = choose|k: int| 0 <= k < prior.len() && prior[k] == found;
        assert(all[k] == found);
    } else {
        let child = node.fields[at].kind->Nested_0;
        let longer = lineage.push(StepModel { field: node.fields[at].name@, owner: node.ident@ });
        let own = ancestor_projections(longer, child.ident@);
        let below = projections(child, longer);
        assert(all == prior + (own + below));
        if own.contains(found) {
            let k = choose|k: int| 0 <= k < own.len() && own[k] == found;
            assert(all[prior.len() + k] == found);
        } else {
            let k = choose|k: int| 0 <= k < below.len() && below[k] == found;
            assert(all[prior.len() + own.len() + k] == found);
        }
    }
}

/// For a node that `rest` leads to from `node`, the projections below
/// `node` hold one from every node on the way: from those of the lineage
/// and from those that `rest` passes.
pub proof fn lemma_projections_cover(
    node: SchemaNode,
    lineage: Seq<StepModel>,
    rest: PathModel,
    descendant: SchemaNode,
)
    requires
        rest.len() > 0,
        node_at(node, rest) == Some(descendant),
    ensures
        forall|start: int|
            0 <= start < lineage.len() + rest.len() ==> projections(node, lineage).contains(
                #[trigger] projection_from(
                    lineage + steps_along(node, rest),
                    start,
                    descendant.ident@,
                ),
            ),
    decreases rest.len(),
{
    let names = node.field_names();
    names.index_of_first_ensures(rest[0]);
    let at = names.index_of_first(rest[0])->Some_0;
    let child = node.fields[at].kind->Nested_0;
    let step = StepModel { field: node.fields[at].name@, owner: node.ident@ };
    let longer = lineage.push(step);
    let count = node.fields.len() as nat;
    lemma_steps_along(node, rest);
    let whole = lineage + steps_along(node, rest);
    assert(names[at] == rest[0]);
    assert(whole =~= longer + steps_along(child, rest.drop_first()));
    assert(projections(node, lineage) == projections_below(node, lineage, count));
    if rest.len() == 1 {
        assert(rest.drop_first() =~= Seq::<Seq<char>>::empty());
        assert(descendant == child);
        assert(whole =~= longer);
        let own = ancestor_projections(longer, child.ident@);
        assert forall|start: int|
            0 <= start < lineage.len() + rest.len() implies projections(node, lineage).contains(
            #[trigger] projection_from(whole, start, descendant.ident@),
        ) by {
            let found = projection_from(whole, start, descendant.ident@);
            assert(own[longer.len() - 1 - start] == found);
            lemma_projections_kept(node, lineage, at, count, found);
        }
    } else {
        lemma_projections_cover(child, longer, rest.drop_first(), descendant);
        assert forall|start: int|
            0 <= start < lineage.len() + rest.len() implies projections(node, lineage).contains(
            #[trigger] projection_from(whole, start, descendant.ident@),
        ) by {
            let found = projection_from(whole, start, descendant.ident@);
            assert(found == projection_from(
                longer + steps_along(child, rest.drop_first()),
                start,
                descendant.ident@,
            ));
            assert(projections(child, longer).contains(found));
            lemma_projections_kept(node, lineage, at, count, found);
        }
    }
}

/// For every node of a schema and every node below it, the projections
/// hold the one that leads from the first to the second along the fields
/// between them: from every ancestor at any depth, not only from the
/// parent.
pub proof fn lemma_projections_complete(
    root: SchemaNode,
    way: PathModel,
    path: PathModel,
    ancestor: SchemaNode,
    descendant: SchemaNode,
)
    requires
        node_at(root, way) == Some(ancestor),
        node_at(ancestor, path) == Some(descendant),
        path.len() > 0,
    ensures
        projections(root, Seq::empty()).contains(
            ProjectionModel { ancestor: ancestor.ident@, descendant: descendant.ident@, path },
        ),
{
    let full = way + path;
    lemma_node_at_joined(root, way, path);
    lemma_steps_along(root, full);
    lemma_projections_cover(root, Seq::empty(), full, descendant);
    let steps = steps_along(root, full);
    let start = way.len() as int;
    assert(Seq::<StepModel>::empty() + steps =~= steps);
    let found = projection_from(steps, start, descendant.ident@);
    assert(projections(root, Seq::empty()).contains(found)) by {
        assert(found == projection_from(
            Seq::<StepModel>::empty() + steps,
            start,
            descendant.ident@,
        ));
    }
    assert(full.subrange(0, start) =~= way);
    assert(steps[start].owner == ancestor.ident@);
    assert(found.path =~= path) by {
        assert forall|k: int| 0 <= k < path.len() implies found.path[k] == path[k] by {
            assert(steps[start + k].field == full[start + k]);
        }
    }
}

/// The types that the steps of a lineage start at, outermost first.
pub open spec fn owners(lineage: Seq<StepModel>) -> Seq<Seq<char>> {
    Seq::new(lineage.len(), |k: int| lineage[k].owner)
}

/// Whether two projections start at one type and lead to one type.
pub open spec fn same_ends(first: ProjectionModel, second: ProjectionModel) -> bool {
    first.ancestor == second.ancestor && first.descendant == second.descendant
}

/// Whether no two of the projections start at one type and lead to one
/// type, so that a type and a type below it pick one projection.
pub open spec fn unambiguous(found: Seq<ProjectionModel>) -> bool {
    forall|i: int, j: int|
        0 <= i < j < found.len() ==> !same_ends(#[trigger] found[i], #[trigger] found[j])
}

/// The type names under the first fields of a node stand at the start of
/// those under more of its fields.
pub proof fn lemma_type_names_grow(node: SchemaNode, upto: nat, more: nat)
    requires
        upto <= more <= node.fields.len(),
    ensures
        node.type_names_below(upto).len() <= node.type_names_below(more).len(),
        node.type_names_below(more).subrange(0, node.type_names_below(upto).len() as int)
            == node.type_names_below(upto),
    decreases more,
{
    if upto < more {
        lemma_type_names_grow(node, upto, (more - 1) as nat);
        let shorter = node.type_names_below((more - 1) as nat);
        let longer = node.type_names_below(more);
        assert(longer.subrange(0, shorter.len() as int) =~= shorter);
        assert(longer.subrange(0, node.type_names_below(upto).len() as int) =~= shorter.subrange(
            0,
            node.type_names_below(upto).len() as int,
        ));
    } else {
        assert(node.type_names_below(more).subrange(0, node.type_names_below(upto).len() as int)
            =~= node.type_names_below(upto));
    }
}

/// Every projection below a node leads to the type of a node below it.
pub proof fn lemma_projections_lead_below(node: SchemaNode, lineage: Seq<StepModel>, upto: nat)
    requires
        upto <= node.fields.len(),
    ensures
        forall|k: int|
            0 <= k < projections_below(node, lineage, upto).len() ==> node.type_names_below(
                upto,
            ).contains((#[trigger] projections_below(node, lineage, upto)[k]).descendant),
    decreases node, upto,
{
    if upto > 0 {
        let at = upto - 1;
        let field = node.fields[at];
        let prior = projections_below(node, lineage, at as nat);
        let all = projections_below(node, lineage, upto);
        let names = node.type_names_below(upto);
        let earlier = node.type_names_below(at as nat);
        lemma_projections_lead_below(node, lineage, at as nat);
        match field.kind {
            FieldKind::Leaf(_) => {
                assert(all =~= prior);
                assert(names =~= earlier);
            },
            FieldKind::Nested(child) => {
                let longer = lineage.push(StepModel { field: field.name@, owner: node.ident@ });
                let own = ancestor_projections(longer, child.ident@);
                let below = projections(child, longer);
                assert(all == prior + (own + below));
                assert(names == earlier + child.type_names());
                lemma_projections_lead_below(child, longer, child.fields.len() as nat);
                assert(below == projections_below(child, longer, child.fields.len() as nat));
                let inner = child.type_names_below(child.fields.len() as nat);
                assert(child.type_names() == seq![child.ident@] + inner);
                assert forall|k: int| 0 <= k < all.len() implies names.contains(
                    (#[trigger] all[k]).descendant,
                ) by {
                    if k < prior.len() {
                        assert(all[k] == prior[k]);
                        let found = choose|i: int|
                            0 <= i < earlier.len() && earlier[i] == prior[k].descendant;
                        assert(names[found] == prior[k].descendant);
                    } else if k < prior.len() + own.len() {
                        assert(all[k] == own[k - prior.len()]);
                        assert(names[earlier.len() as int] == child.ident@);
                    } else {
                        let j = k - prior.len() - own.len();
                        assert(all[k] == below[j]);
                        let found = choose|i: int|
                            0 <= i < inner.len() && inner[i] == below[j].descendant;
                        assert(names[earlier.len() + 1 + found] == below[j].descendant);
                    }
                }
            },
        }
    }
}

/// Where the types on the way to a node and the types of the node and of
/// the nodes below it are all different, no two projections below the node
/// start at one type and lead to one type.
pub proof fn lemma_projections_unambiguous_below(
    node: SchemaNode,
    lineage: Seq<StepModel>,
    upto: nat,
)
    requires
        all_distinct(owners(lineage) + node.type_names()),
        upto <= node.fields.len(),
    ensures
        unambiguous(projections_below(node, lineage, upto)),
    decreases node, upto,
{
    if upto > 0 {
        let at = upto - 1;
        let field = node.fields[at];
        let prior = projections_below(node, lineage, at as nat);
        let all = projections_below(node, lineage, upto);
        lemma_projections_unambiguous_below(node, lineage, at as nat);
        match field.kind {
            FieldKind::Leaf(_) => {
                assert(all =~= prior);
            },
            FieldKind::Nested(child) => {
                let step = StepModel { field: field.name@, owner: node.ident@ };
                let longer = lineage.push(step);
                let own = ancestor_projections(longer, child.ident@);
                let below = projections(child, longer);
                assert(all == prior + (own + below));
                assert(below == projections_below(child, longer, child.fields.len() as nat));

                // The types in a row: those on the way and the node's own, those under
                // the earlier fields, those of the child, and the rest.
                let count = node.fields.len() as nat;
                let under = node.type_names_below(count);
                let earlier = node.type_names_below(at as nat);
                let upto_here = node.type_names_below(upto);
                let first = owners(lineage) + seq![node.ident@];
                let third = child.type_names();
                lemma_type_names_grow(node, upto, count);
                let rest = under.subrange(upto_here.len() as int, under.len() as int);
                assert(upto_here == earlier + third);
                assert(under =~= upto_here + rest);
                assert(node.type_names() == seq![node.ident@] + under);
                assert(owners(lineage) + node.type_names() =~= first + earlier + third + rest);
                lemma_distinct_parts(first, earlier, third, rest);
                assert(owners(longer) =~= first);
                lemma_projections_unambiguous_below(child, longer, child.fields.len() as nat);

                // Where each part leads.
                lemma_projections_lead_below(node, lineage, at as nat);
                lemma_projections_lead_below(child, longer, child.fields.len() as nat);
                let inner = child.type_names_below(child.fields.len() as nat);
                assert(third == seq![child.ident@] + inner);
                lemma_all_distinct_pairs(first + third);

                assert forall|i: int, j: int| 0 <= i < j < all.len() implies !same_ends(
                    #[trigger] all[i],
                    #[trigger] all[j],
                ) by {
                    let split = prior.len() as int;
                    let second_split = split + own.len();
                    if j < split {
                        assert(all[i] == prior[i] && all[j] == prior[j]);
                    } else if i < split {
                        // One leads under an earlier field, the other to the child or below it.
                        assert(all[i] == prior[i]);
                        let left = choose|k: int|
                            0 <= k < earlier.len() && earlier[k] == prior[i].descendant;
                        if j < second_split {
                            assert(all[j] == own[j - split]);
                            assert(third[0] == child.ident@);
                            assert(earlier[left] != third[0]);
                        } else {
                            assert(all[j] == below[j - second_split]);
                            let right = choose|k: int|
                                0 <= k < inner.len() && inner[k] == below[j
                                    - second_split].descendant;
                            assert(third[right + 1] == inner[right]);
                            assert(earlier[left] != third[right + 1]);
                        }
                    } else if j < second_split {
                        // Both lead to the child, from two steps of the way.
                        let a = i - split;
                        let b = j - split;
                        assert(all[i] == own[a] && all[j] == own[b]);
                        let from = longer.len() - 1 - a;
                        let to = longer.len() - 1 - b;
                        assert(own[a].ancestor == longer[from].owner);
                        assert(own[b].ancestor == longer[to].owner);
                        assert((first + third)[from] == longer[from].owner);
                        assert((first + third)[to] == longer[to].owner);
                    } else if i < second_split {
                        // One leads to the child, the other below it.
                        assert(all[i] == own[i - split]);
                        assert(all[j] == below[j - second_split]);
                        let right = choose|k: int|
                            0 <= k < inner.len() && inner[k] == below[j - second_split].descendant;
                        assert((first + third)[first.len() as int] == child.ident@);
                        assert((first + third)[first.len() + 1 + right] == inner[right]);
                    } else {
                        assert(all[i] == below[i - second_split]);
                        assert(all[j] == below[j - second_split]);
                    }
                }
            },
        }
    }
}

/// For a valid schema an ancestor and a node below it pick one
/// projection: no two projections start at one type and lead to one type.
/// This is what the rule against two nodes of one type is for.
pub proof fn lemma_projections_unambiguous(root: SchemaNode)
    requires
        root.valid(),
    ensures
        unambiguous(projections(root, Seq::empty())),
{
    let lineage = Seq::<StepModel>::empty();
    assert(owners(lineage) + root.type_names() =~= root.type_names());
    lemma_projections_unambiguous_below(root, lineage, root.fields.len() as nat);
    assert(projections(root, lineage) == projections_below(
        root,
        lineage,
        root.fields.len() as nat,
    ));
}

} // verus!

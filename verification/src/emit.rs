//! The code that is generated for a configuration schema, as source text.
//!
//! For the root: the restart comparison. For each node: the compact type
//! with its `arcify`, the snapshot type with its `compact`, and one
//! projection from each ancestor.
use crate::compiler::ancestor_projections;
use crate::compiler::build_restart_comparison;
use crate::compiler::compact_name;
use crate::compiler::compact_ty_name;
use crate::compiler::extend_lineage;
use crate::compiler::impl_as_field_for_lineage;
use crate::compiler::path_texts;
use crate::compiler::projection_views;
use crate::compiler::restart_paths;
use crate::compiler::step_views;
use crate::compiler::PathModel;
use crate::compiler::Projection;
use crate::compiler::ProjectionModel;
use crate::compiler::Step;
use crate::compiler::StepModel;
use crate::schema::FieldKind;
use crate::schema::SchemaField;
use crate::schema::SchemaNode;
use crate::text::texts;
use vstd::prelude::*;
use vstd::string::StringExecFns;

verus! {

/// The first `upto` fields of a path, each after a dot.
pub open spec fn dotted(path: PathModel, upto: nat) -> Seq<char>
    decreases upto,
{
    if upto == 0 || upto > path.len() {
        Seq::empty()
    } else {
        dotted(path, (upto - 1) as nat) + "."@ + path[upto - 1]
    }
}

/// The comparison of one path between two snapshots.
pub open spec fn comparison_text(path: PathModel) -> Seq<char> {
    "self"@ + dotted(path, path.len()) + " != other"@ + dotted(path, path.len())
}

/// The comparisons of the first `upto` paths, joined by `||`.
pub open spec fn comparisons_text(paths: Seq<PathModel>, upto: nat) -> Seq<char>
    decreases upto,
{
    if upto == 0 || upto > paths.len() {
        Seq::empty()
    } else if upto == 1 {
        comparison_text(paths[0])
    } else {
        comparisons_text(paths, (upto - 1) as nat) + " || "@ + comparison_text(paths[upto - 1])
    }
}

/// The restart comparison as an expression: `false` where no field is
/// tagged.
pub open spec fn restart_expression(paths: Seq<PathModel>) -> Seq<char> {
    if paths.len() == 0 {
        "false"@
    } else {
        comparisons_text(paths, paths.len())
    }
}

/// The restart comparison of the type `ident`.
pub open spec fn restart_impl_text(ident: Seq<char>, paths: Seq<PathModel>) -> Seq<char> {
    "impl ::conspiracy::config::RestartRequired for "@ + ident
        + " { #[inline] fn restart_required(&self, other: &Self) -> bool { "@ + restart_expression(
        paths,
    ) + " } }\n"@
}

/// The projection as an implementation of `AsField`.
pub open spec fn as_field_text(projection: ProjectionModel) -> Seq<char> {
    "impl ::conspiracy::config::AsField<"@ + projection.descendant + "> for "@ + projection.ancestor
        + " { #[inline] fn share(&self) -> std::sync::Arc<"@ + projection.descendant
        + "> { self"@ + dotted(projection.path, projection.path.len()) + ".clone() } }\n"@
}

/// The first `upto` projections as implementations of `AsField`.
pub open spec fn as_fields_text(projections: Seq<ProjectionModel>, upto: nat) -> Seq<char>
    decreases upto,
{
    if upto == 0 || upto > projections.len() {
        Seq::empty()
    } else {
        as_fields_text(projections, (upto - 1) as nat) + as_field_text(projections[upto - 1])
    }
}

/// Append the fields of a path, each after a dot.
pub fn write_dotted(path: &Vec<String>, out: &mut String)
    ensures
        final(out)@ == old(out)@ + dotted(texts(path@), path.len() as nat),
{
    let mut at: usize = 0;
    assert(out@ =~= old(out)@ + dotted(texts(path@), 0));
    while at < path.len()
        invariant
            at <= path.len(),
            out@ == old(out)@ + dotted(texts(path@), at as nat),
        decreases path.len() - at,
    {
        out.append(".");
        out.append(path[at].as_str());
        assert(out@ =~= old(out)@ + dotted(texts(path@), (at + 1) as nat));
        at += 1;
    }
}

/// Append the comparison of one path between two snapshots.
pub fn comparison_for_field(path: &Vec<String>, out: &mut String)
    ensures
        final(out)@ == old(out)@ + comparison_text(texts(path@)),
{
    out.append("self");
    write_dotted(path, out);
    out.append(" != other");
    write_dotted(path, out);
    assert(out@ =~= old(out)@ + comparison_text(texts(path@)));
}

/// Append the restart comparison as an expression.
pub fn write_restart_expression(paths: &Vec<Vec<String>>, out: &mut String)
    ensures
        final(out)@ == old(out)@ + restart_expression(path_texts(paths@)),
{
    if paths.len() == 0 {
        out.append("false");
        return ;
    }
    let ghost models = path_texts(paths@);
    let mut at: usize = 0;
    assert(out@ =~= old(out)@ + comparisons_text(models, 0));
    while at < paths.len()
        invariant
            at <= paths.len(),
            models == path_texts(paths@),
            out@ == old(out)@ + comparisons_text(models, at as nat),
        decreases paths.len() - at,
    {
        if at > 0 {
            out.append(" || ");
        }
        comparison_for_field(&paths[at], out);
        assert(models[at as int] == texts(paths[at as int]@));
        assert(out@ =~= old(out)@ + comparisons_text(models, (at + 1) as nat));
        at += 1;
    }
}

/// Append the restart comparison of the type `ident`.
pub fn restart_required(ident: &String, paths: &Vec<Vec<String>>, out: &mut String)
    ensures
        final(out)@ == old(out)@ + restart_impl_text(ident@, path_texts(paths@)),
{
    out.append("impl ::conspiracy::config::RestartRequired for ");
    out.append(ident.as_str());
    out.append(" { #[inline] fn restart_required(&self, other: &Self) -> bool { ");
    write_restart_expression(paths, out);
    out.append(" } }\n");
    assert(out@ =~= old(out)@ + restart_impl_text(ident@, path_texts(paths@)));
}

/// Append a projection as an implementation of `AsField`.
pub fn write_as_field(projection: &Projection, out: &mut String)
    ensures
        final(out)@ == old(out)@ + as_field_text(projection@),
{
    out.append("impl ::conspiracy::config::AsField<");
    out.append(projection.descendant.as_str());
    out.append("> for ");
    out.append(projection.ancestor.as_str());
    out.append(" { #[inline] fn share(&self) -> std::sync::Arc<");
    out.append(projection.descendant.as_str());
    out.append("> { self");
    write_dotted(&projection.path, out);
    out.append(".clone() } }\n");
    assert(out@ =~= old(out)@ + as_field_text(projection@));
}

/// Append projections as implementations of `AsField`.
pub fn write_as_fields(projections: &Vec<Projection>, out: &mut String)
    ensures
        final(out)@ == old(out)@ + as_fields_text(
            projection_views(projections@),
            projections.len() as nat,
        ),
{
    let ghost models = projection_views(projections@);
    let mut at: usize = 0;
    assert(out@ =~= old(out)@ + as_fields_text(models, 0));
    while at < projections.len()
        invariant
            at <= projections.len(),
            models == projection_views(projections@),
            out@ == old(out)@ + as_fields_text(models, at as nat),
        decreases projections.len() - at,
    {
        write_as_field(&projections[at], out);
        assert(models[at as int] == projections[at as int]@);
        assert(out@ =~= old(out)@ + as_fields_text(models, (at + 1) as nat));
        at += 1;
    }
}

/// A visibility before what it applies to; nothing where none was
/// written.
pub open spec fn visibility_prefix(visibility: Seq<char>) -> Seq<char> {
    if visibility.len() == 0 {
        Seq::empty()
    } else {
        visibility + " "@
    }
}

/// The first `upto` annotations, each followed by a space.
pub open spec fn annotations_text(annotations: Seq<Seq<char>>, upto: nat) -> Seq<char>
    decreases upto,
{
    if upto == 0 || upto > annotations.len() {
        Seq::empty()
    } else {
        annotations_text(annotations, (upto - 1) as nat) + annotations[upto - 1] + " "@
    }
}

/// The type of a field in the compact type of its node.
pub open spec fn compact_field_type(field: SchemaField) -> Seq<char> {
    match field.kind {
        FieldKind::Leaf(ty) => ty@,
        FieldKind::Nested(child) => compact_name(child.ident@),
    }
}

/// The first `upto` fields of the compact type of a node.
pub open spec fn compact_fields_text(node: SchemaNode, upto: nat) -> Seq<char>
    decreases upto,
{
    if upto == 0 || upto > node.fields.len() {
        Seq::empty()
    } else {
        compact_fields_text(node, (upto - 1) as nat) + "pub "@ + node.fields[upto - 1].name@
            + ": "@ + compact_field_type(node.fields[upto - 1]) + ", "@
    }
}

/// How `arcify` fills a field of the snapshot.
pub open spec fn arcified_field(field: SchemaField) -> Seq<char> {
    field.name@ + ": self."@ + field.name@ + (match field.kind {
        FieldKind::Leaf(_) => Seq::empty(),
        FieldKind::Nested(_) => ".arcify()"@,
    }) + ", "@
}

/// How `arcify` fills the first `upto` fields.
pub open spec fn arcified_fields_text(node: SchemaNode, upto: nat) -> Seq<char>
    decreases upto,
{
    if upto == 0 || upto > node.fields.len() {
        Seq::empty()
    } else {
        arcified_fields_text(node, (upto - 1) as nat) + arcified_field(node.fields[upto - 1])
    }
}

/// The compact type of a node, with its `arcify`.
pub open spec fn compact_struct_text(node: SchemaNode) -> Seq<char> {
    "pub struct "@ + compact_name(node.ident@) + " { "@ + compact_fields_text(
        node,
        node.fields.len() as nat,
    ) + "}\n"@ + "impl "@ + compact_name(node.ident@)
        + " { pub fn arcify(self) -> std::sync::Arc<"@ + node.ident@ + "> { std::sync::Arc::new("@
        + node.ident@ + " { "@ + arcified_fields_text(node, node.fields.len() as nat)
        + "}) } }\n"@
}

/// The compact types of the nodes below `node`, then that of `node`.
pub open spec fn compact_structs_text(node: SchemaNode) -> Seq<char>
    decreases node, node.fields.len() + 1,
{
    compact_children_text(node, node.fields.len() as nat) + compact_struct_text(node)
}

/// The compact types of the nodes under the first `upto` fields.
pub open spec fn compact_children_text(node: SchemaNode, upto: nat) -> Seq<char>
    decreases node, upto,
{
    if upto == 0 || upto > node.fields.len() {
        Seq::empty()
    } else {
        compact_children_text(node, (upto - 1) as nat) + (match node.fields[upto - 1].kind {
            FieldKind::Leaf(_) => Seq::empty(),
            FieldKind::Nested(child) => compact_structs_text(child),
        })
    }
}

/// The type of a field in the snapshot type of its node: a nested node is
/// held behind a shared pointer.
pub open spec fn snapshot_field_type(field: SchemaField) -> Seq<char> {
    match field.kind {
        FieldKind::Leaf(ty) => ty@,
        FieldKind::Nested(child) => "std::sync::Arc<"@ + child.ident@ + ">"@,
    }
}

/// A field of the snapshot type, with what is passed through for it.
pub open spec fn snapshot_field_text(field: SchemaField) -> Seq<char> {
    annotations_text(texts(field.annotations@), field.annotations.len() as nat)
        + visibility_prefix(field.visibility@) + field.name@ + ": "@ + snapshot_field_type(field)
        + ", "@
}

/// The first `upto` fields of the snapshot type of a node.
pub open spec fn snapshot_fields_text(node: SchemaNode, upto: nat) -> Seq<char>
    decreases upto,
{
    if upto == 0 || upto > node.fields.len() {
        Seq::empty()
    } else {
        snapshot_fields_text(node, (upto - 1) as nat) + snapshot_field_text(node.fields[upto - 1])
    }
}

/// How `compact` fills a field of the compact value.
pub open spec fn compacted_field(field: SchemaField) -> Seq<char> {
    field.name@ + ": "@ + (match field.kind {
        FieldKind::Leaf(_) => "self."@ + field.name@ + ".clone()"@,
        FieldKind::Nested(_) => "(*self."@ + field.name@ + ").clone().compact()"@,
    }) + ", "@
}

/// How `compact` fills the first `upto` fields.
pub open spec fn compacted_fields_text(node: SchemaNode, upto: nat) -> Seq<char>
    decreases upto,
{
    if upto == 0 || upto > node.fields.len() {
        Seq::empty()
    } else {
        compacted_fields_text(node, (upto - 1) as nat) + compacted_field(node.fields[upto - 1])
    }
}

/// The snapshot type of a node, with its `compact`.
pub open spec fn snapshot_struct_text(node: SchemaNode) -> Seq<char> {
    "#[derive(Clone, PartialEq, ::serde::Serialize, ::serde::Deserialize)]\n"@ + annotations_text(
        texts(node.annotations@),
        node.annotations.len() as nat,
    ) + visibility_prefix(node.visibility@) + "struct "@ + node.ident@ + " { "@
        + snapshot_fields_text(node, node.fields.len() as nat) + "}\n"@ + "impl "@ + node.ident@
        + " { pub fn compact(&self) -> "@ + compact_name(node.ident@) + " { "@ + compact_name(
        node.ident@,
    ) + " { "@ + compacted_fields_text(node, node.fields.len() as nat) + "} } }\n"@
}

/// For each node below `node` its projections and what is generated below
/// it, then the snapshot type of `node`.
pub open spec fn snapshot_structs_text(node: SchemaNode, lineage: Seq<StepModel>) -> Seq<char>
    decreases node, node.fields.len() + 1,
{
    snapshot_children_text(node, lineage, node.fields.len() as nat) + snapshot_struct_text(node)
}

/// What is generated for the nodes under the first `upto` fields.
pub open spec fn snapshot_children_text(node: SchemaNode, lineage: Seq<StepModel>, upto: nat) -> Seq<
    char,
>
    decreases node, upto,
{
    if upto == 0 || upto > node.fields.len() {
        Seq::empty()
    } else {
        let field = node.fields[upto - 1];
        snapshot_children_text(node, lineage, (upto - 1) as nat) + (match field.kind {
            FieldKind::Leaf(_) => Seq::empty(),
            FieldKind::Nested(child) => {
                let longer = lineage.push(StepModel { field: field.name@, owner: node.ident@ });
                let found = ancestor_projections(longer, child.ident@);
                as_fields_text(found, found.len()) + snapshot_structs_text(child, longer)
            },
        })
    }
}

/// Everything that is generated for a schema.
pub open spec fn config_text(root: SchemaNode) -> Seq<char> {
    restart_impl_text(root.ident@, restart_paths(root, Seq::empty())) + compact_structs_text(root)
        + snapshot_structs_text(root, Seq::empty())
}

/// Append a visibility before what it applies to.
pub fn write_visibility(visibility: &String, out: &mut String)
    ensures
        final(out)@ == old(out)@ + visibility_prefix(visibility@),
{
    if visibility.as_str().unicode_len() > 0 {
        out.append(visibility.as_str());
        out.append(" ");
        assert(out@ =~= old(out)@ + visibility_prefix(visibility@));
    } else {
        assert(out@ =~= old(out)@ + visibility_prefix(visibility@));
    }
}

/// Append annotations, each followed by a space.
pub fn write_annotations(annotations: &Vec<String>, out: &mut String)
    ensures
        final(out)@ == old(out)@ + annotations_text(texts(annotations@), annotations.len() as nat),
{
    let mut at: usize = 0;
    assert(out@ =~= old(out)@ + annotations_text(texts(annotations@), 0));
    while at < annotations.len()
        invariant
            at <= annotations.len(),
            out@ == old(out)@ + annotations_text(texts(annotations@), at as nat),
        decreases annotations.len() - at,
    {
        out.append(annotations[at].as_str());
        out.append(" ");
        assert(out@ =~= old(out)@ + annotations_text(texts(annotations@), (at + 1) as nat));
        at += 1;
    }
}

/// Append the compact type of a node, with its `arcify`.
pub fn write_compact_struct(node: &SchemaNode, out: &mut String)
    ensures
        final(out)@ == old(out)@ + compact_struct_text(*node),
{
    let compact = compact_ty_name(&node.ident);
    out.append("pub struct ");
    out.append(compact.as_str());
    out.append(" { ");
    let ghost start = out@;
    let mut at: usize = 0;
    assert(out@ =~= start + compact_fields_text(*node, 0));
    while at < node.fields.len()
        invariant
            at <= node.fields.len(),
            out@ == start + compact_fields_text(*node, at as nat),
        decreases node.fields.len() - at,
    {
        let field = &node.fields[at];
        out.append("pub ");
        out.append(field.name.as_str());
        out.append(": ");
        match &field.kind {
            FieldKind::Leaf(ty) => {
                out.append(ty.as_str());
            },
            FieldKind::Nested(child) => {
                let name = compact_ty_name(&child.ident);
                out.append(name.as_str());
            },
        }
        out.append(", ");
        assert(out@ =~= start + compact_fields_text(*node, (at + 1) as nat));
        at += 1;
    }
    out.append("}\n");
    out.append("impl ");
    out.append(compact.as_str());
    out.append(" { pub fn arcify(self) -> std::sync::Arc<");
    out.append(node.ident.as_str());
    out.append("> { std::sync::Arc::new(");
    out.append(node.ident.as_str());
    out.append(" { ");
    let ghost middle = out@;
    let mut at: usize = 0;
    assert(out@ =~= middle + arcified_fields_text(*node, 0));
    while at < node.fields.len()
        invariant
            at <= node.fields.len(),
            out@ == middle + arcified_fields_text(*node, at as nat),
        decreases node.fields.len() - at,
    {
        let field = &node.fields[at];
        out.append(field.name.as_str());
        out.append(": self.");
        out.append(field.name.as_str());
        match &field.kind {
            FieldKind::Leaf(_) => {},
            FieldKind::Nested(_) => {
                out.append(".arcify()");
            },
        }
        out.append(", ");
        assert(out@ =~= middle + arcified_fields_text(*node, (at + 1) as nat));
        at += 1;
    }
    out.append("}) } }\n");
    assert(out@ =~= old(out)@ + compact_struct_text(*node));
}

/// Append the compact types of the nodes below `node`, then that of
/// `node`.
pub fn generate_compact_struct(node: &SchemaNode, out: &mut String)
    ensures
        final(out)@ == old(out)@ + compact_structs_text(*node),
    decreases node, node.fields.len() + 1,
{
    let mut at: usize = 0;
    assert(out@ =~= old(out)@ + compact_children_text(*node, 0));
    while at < node.fields.len()
        invariant
            at <= node.fields.len(),
            out@ == old(out)@ + compact_children_text(*node, at as nat),
        decreases node.fields.len() - at,
    {
        match &node.fields[at].kind {
            FieldKind::Leaf(_) => {},
            FieldKind::Nested(child) => {
                generate_compact_struct(child, out);
            },
        }
        assert(out@ =~= old(out)@ + compact_children_text(*node, (at + 1) as nat));
        at += 1;
    }
    write_compact_struct(node, out);
    assert(out@ =~= old(out)@ + compact_structs_text(*node));
}

/// Append a field of the snapshot type.
pub fn write_snapshot_field(field: &SchemaField, out: &mut String)
    ensures
        final(out)@ == old(out)@ + snapshot_field_text(*field),
{
    write_annotations(&field.annotations, out);
    write_visibility(&field.visibility, out);
    out.append(field.name.as_str());
    out.append(": ");
    match &field.kind {
        FieldKind::Leaf(ty) => {
            out.append(ty.as_str());
        },
        FieldKind::Nested(child) => {
            out.append("std::sync::Arc<");
            out.append(child.ident.as_str());
            out.append(">");
        },
    }
    out.append(", ");
    assert(out@ =~= old(out)@ + snapshot_field_text(*field));
}

/// Append the snapshot type of a node, with its `compact`.
pub fn write_snapshot_struct(node: &SchemaNode, out: &mut String)
    ensures
        final(out)@ == old(out)@ + snapshot_struct_text(*node),
{
    let compact = compact_ty_name(&node.ident);
    out.append("#[derive(Clone, PartialEq, ::serde::Serialize, ::serde::Deserialize)]\n");
    write_annotations(&node.annotations, out);
    write_visibility(&node.visibility, out);
    out.append("struct ");
    out.append(node.ident.as_str());
    out.append(" { ");
    let ghost start = out@;
    let mut at: usize = 0;
    assert(out@ =~= start + snapshot_fields_text(*node, 0));
    while at < node.fields.len()
        invariant
            at <= node.fields.len(),
            out@ == start + snapshot_fields_text(*node, at as nat),
        decreases node.fields.len() - at,
    {
        write_snapshot_field(&node.fields[at], out);
        assert(out@ =~= start + snapshot_fields_text(*node, (at + 1) as nat));
        at += 1;
    }
    out.append("}\n");
    out.append("impl ");
    out.append(node.ident.as_str());
    out.append(" { pub fn compact(&self) -> ");
    out.append(compact.as_str());
    out.append(" { ");
    out.append(compact.as_str());
    out.append(" { ");
    let ghost middle = out@;
    let mut at: usize = 0;
    assert(out@ =~= middle + compacted_fields_text(*node, 0));
    while at < node.fields.len()
        invariant
            at <= node.fields.len(),
            out@ == middle + compacted_fields_text(*node, at as nat),
        decreases node.fields.len() - at,
    {
        let field = &node.fields[at];
        out.append(field.name.as_str());
        out.append(": ");
        match &field.kind {
            FieldKind::Leaf(_) => {
                out.append("self.");
                out.append(field.name.as_str());
                out.append(".clone()");
            },
            FieldKind::Nested(_) => {
                out.append("(*self.");
                out.append(field.name.as_str());
                out.append(").clone().compact()");
            },
        }
        out.append(", ");
        assert(out@ =~= middle + compacted_fields_text(*node, (at + 1) as nat));
        at += 1;
    }
    out.append("} } }\n");
    assert(out@ =~= old(out)@ + snapshot_struct_text(*node));
}

/// Append, for each node below `node`, its projections and what is
/// generated below it, then the snapshot type of `node`.
pub fn generate_config_structs(node: &SchemaNode, lineage: &Vec<Step>, out: &mut String)
    ensures
        final(out)@ == old(out)@ + snapshot_structs_text(*node, step_views(lineage@)),
    decreases node, node.fields.len() + 1,
{
    let mut at: usize = 0;
    assert(out@ =~= old(out)@ + snapshot_children_text(*node, step_views(lineage@), 0));
    while at < node.fields.len()
        invariant
            at <= node.fields.len(),
            out@ == old(out)@ + snapshot_children_text(*node, step_views(lineage@), at as nat),
        decreases node.fields.len() - at,
    {
        let field = &node.fields[at];
        match &field.kind {
            FieldKind::Leaf(_) => {},
            FieldKind::Nested(child) => {
                let longer = extend_lineage(lineage, &field.name, &node.ident);
                let mut found: Vec<Projection> = Vec::new();
                assert(projection_views(found@) =~= Seq::<ProjectionModel>::empty());
                impl_as_field_for_lineage(&longer, &child.ident, &mut found);
                assert(projection_views(found@) =~= ancestor_projections(
                    step_views(longer@),
                    child.ident@,
                ));
                write_as_fields(&found, out);
                generate_config_structs(child, &longer, out);
            },
        }
        assert(out@ =~= old(out)@ + snapshot_children_text(
            *node,
            step_views(lineage@),
            (at + 1) as nat,
        ));
        at += 1;
    }
    write_snapshot_struct(node, out);
    assert(out@ =~= old(out)@ + snapshot_structs_text(*node, step_views(lineage@)));
}

/// Everything that is generated for a schema, as source text.
pub fn generate(root: &SchemaNode) -> (text: String)
    ensures
        text@ == config_text(*root),
{
    let mut text = String::new();
    let paths = build_restart_comparison(root);
    restart_required(&root.ident, &paths, &mut text);
    generate_compact_struct(root, &mut text);
    let lineage: Vec<Step> = Vec::new();
    assert(step_views(lineage@) =~= Seq::<StepModel>::empty());
    generate_config_structs(root, &lineage, &mut text);
    assert(text@ =~= config_text(*root));
    text
}

} // verus!

//! The code that is generated for a feature schema, as source text: the
//! enumeration, the state record with its defaults and its restart
//! comparison, the lookup by feature, and the builder.
use crate::compiler::path_texts;
use crate::compiler::PathModel;
use crate::emit::restart_impl_text;
use crate::emit::restart_required;
use crate::emit::visibility_prefix;
use crate::emit::write_visibility;
use crate::features::Feature;
use crate::features::Features;
use crate::text::texts;
use vstd::prelude::*;
use vstd::string::StringExecFns;

verus! {

/// The word for a default.
pub open spec fn bool_text(value: bool) -> Seq<char> {
    if value {
        "true"@
    } else {
        "false"@
    }
}

/// The fields of the tagged features among the first `upto`, each as a
/// path of its own.
pub open spec fn tagged_paths(features: Seq<Feature>, upto: nat) -> Seq<PathModel>
    decreases upto,
{
    if upto == 0 || upto > features.len() {
        Seq::empty()
    } else if features[upto - 1].restart {
        tagged_paths(features, (upto - 1) as nat).push(seq![features[upto - 1].field@])
    } else {
        tagged_paths(features, (upto - 1) as nat)
    }
}

/// The variants of the first `upto` features.
pub open spec fn variants_text(features: Seq<Feature>, upto: nat) -> Seq<char>
    decreases upto,
{
    if upto == 0 || upto > features.len() {
        Seq::empty()
    } else {
        variants_text(features, (upto - 1) as nat) + features[upto - 1].variant@ + ", "@
    }
}

/// The enumeration of the features.
pub open spec fn enum_text(features: Features) -> Seq<char> {
    visibility_prefix(features.visibility@) + "enum "@ + features.name@ + " { "@ + variants_text(
        features.features@,
        features.features.len() as nat,
    ) + "}\n"@ + "impl "@ + features.name@ + " { pub fn builder() -> "@
        + features.state_builder_name@ + " { "@ + features.state_name@ + "::builder() } }\n"@
}

/// The fields of the state record for the first `upto` features.
pub open spec fn state_fields_text(features: Seq<Feature>, upto: nat) -> Seq<char>
    decreases upto,
{
    if upto == 0 || upto > features.len() {
        Seq::empty()
    } else {
        state_fields_text(features, (upto - 1) as nat) + features[upto - 1].field@ + ": bool, "@
    }
}

/// The function that returns the default of a feature.
pub open spec fn default_fn_text(feature: Feature) -> Seq<char> {
    "pub fn "@ + feature.default_fn@ + "() -> bool { "@ + bool_text(feature.default) + " } "@
}

/// The functions that return the defaults of the first `upto` features.
pub open spec fn default_fns_text(features: Seq<Feature>, upto: nat) -> Seq<char>
    decreases upto,
{
    if upto == 0 || upto > features.len() {
        Seq::empty()
    } else {
        default_fns_text(features, (upto - 1) as nat) + default_fn_text(features[upto - 1])
    }
}

/// The state record, with the functions of its defaults and its restart
/// comparison.
pub open spec fn state_struct_text(features: Features) -> Seq<char> {
    "#[derive(::serde::Serialize, ::serde::Deserialize, Debug, PartialEq)]\n"@ + visibility_prefix(
        features.visibility@,
    ) + "struct "@ + features.state_name@ + " { "@ + state_fields_text(
        features.features@,
        features.features.len() as nat,
    ) + "}\n"@ + "impl "@ + features.state_name@ + " { pub fn builder() -> "@
        + features.state_builder_name@ + " { "@ + features.state_builder_name@ + "::new() } "@
        + default_fns_text(features.features@, features.features.len() as nat) + "}\n"@
        + restart_impl_text(
        features.state_name@,
        tagged_paths(features.features@, features.features.len() as nat),
    )
}

/// How the default state fills the first `upto` fields.
pub open spec fn default_fields_text(features: Seq<Feature>, upto: nat) -> Seq<char>
    decreases upto,
{
    if upto == 0 || upto > features.len() {
        Seq::empty()
    } else {
        default_fields_text(features, (upto - 1) as nat) + features[upto - 1].field@ + ": Self::"@
            + features[upto - 1].default_fn@ + "(), "@
    }
}

/// The default of the state record.
pub open spec fn default_impl_text(features: Features) -> Seq<char> {
    "impl Default for "@ + features.state_name@ + " { fn default() -> Self { Self { "@
        + default_fields_text(features.features@, features.features.len() as nat) + "} } }\n"@
}

/// The lookup of the first `upto` features.
pub open spec fn branches_text(name: Seq<char>, features: Seq<Feature>, upto: nat) -> Seq<char>
    decreases upto,
{
    if upto == 0 || upto > features.len() {
        Seq::empty()
    } else {
        branches_text(name, features, (upto - 1) as nat) + name + "::"@ + features[upto
            - 1].variant@ + " => self."@ + features[upto - 1].field@ + ", "@
    }
}

/// The lookup by feature, and the tie between the enumeration and its
/// state record.
pub open spec fn as_feature_text(features: Features) -> Seq<char> {
    "impl ::conspiracy::feature_control::AsFeature for "@ + features.state_name@
        + " { type Feature = "@ + features.name@
        + "; #[inline] fn as_feature(&self, feature: "@ + features.name@
        + ") -> bool { match feature { "@ + branches_text(
        features.name@,
        features.features@,
        features.features.len() as nat,
    ) + "} } fn name() -> String { String::from(\""@ + features.state_name@ + "\") } }\n"@
        + "impl ::conspiracy::feature_control::FeatureSet for "@ + features.name@
        + " { type State = "@ + features.state_name@ + "; }\n"@
}

/// The setter of a feature.
pub open spec fn setter_text(feature: Feature) -> Seq<char> {
    "pub fn "@ + feature.field@ + "(mut self, value: bool) -> Self { self.state."@ + feature.field@
        + " = value; self } "@
}

/// The setters of the first `upto` features.
pub open spec fn setters_text(features: Seq<Feature>, upto: nat) -> Seq<char>
    decreases upto,
{
    if upto == 0 || upto > features.len() {
        Seq::empty()
    } else {
        setters_text(features, (upto - 1) as nat) + setter_text(features[upto - 1])
    }
}

/// The builder of the state record.
pub open spec fn builder_text(features: Features) -> Seq<char> {
    visibility_prefix(features.visibility@) + "struct "@ + features.state_builder_name@
        + " { state: "@ + features.state_name@ + ", }\n"@ + "impl "@
        + features.state_builder_name@ + " { pub fn new() -> Self { Self { state: "@
        + features.state_name@ + "::default() } } pub fn build(self) -> "@ + features.state_name@
        + " { self.state } "@ + setters_text(features.features@, features.features.len() as nat)
        + "}\n"@
}

/// Everything that is generated for a feature schema.
pub open spec fn features_text(features: Features) -> Seq<char> {
    enum_text(features) + state_struct_text(features) + default_impl_text(features)
        + as_feature_text(features) + builder_text(features)
}

/// The fields of the tagged features, each as a path of its own.
pub fn restart_fields(features: &Features) -> (paths: Vec<Vec<String>>)
    ensures
        path_texts(paths@) == tagged_paths(features.features@, features.features.len() as nat),
{
    let mut paths: Vec<Vec<String>> = Vec::new();
    let mut at: usize = 0;
    assert(path_texts(paths@) =~= tagged_paths(features.features@, 0));
    while at < features.features.len()
        invariant
            at <= features.features.len(),
            path_texts(paths@) == tagged_paths(features.features@, at as nat),
        decreases features.features.len() - at,
    {
        if features.features[at].restart {
            let ghost before = path_texts(paths@);
            let mut path: Vec<String> = Vec::new();
            path.push(features.features[at].field.clone());
            assert(texts(path@) =~= seq![features.features[at as int].field@]);
            paths.push(path);
            assert(path_texts(paths@) =~= before.push(seq![features.features[at as int].field@]));
        }
        at += 1;
    }
    paths
}

/// Append the enumeration of the features.
pub fn make_features_enum(features: &Features, out: &mut String)
    ensures
        final(out)@ == old(out)@ + enum_text(*features),
{
    write_visibility(&features.visibility, out);
    out.append("enum ");
    out.append(features.name.as_str());
    out.append(" { ");
    let ghost start = out@;
    let mut at: usize = 0;
    assert(out@ =~= start + variants_text(features.features@, 0));
    while at < features.features.len()
        invariant
            at <= features.features.len(),
            out@ == start + variants_text(features.features@, at as nat),
        decreases features.features.len() - at,
    {
        out.append(features.features[at].variant.as_str());
        out.append(", ");
        assert(out@ =~= start + variants_text(features.features@, (at + 1) as nat));
        at += 1;
    }
    out.append("}\n");
    out.append("impl ");
    out.append(features.name.as_str());
    out.append(" { pub fn builder() -> ");
    out.append(features.state_builder_name.as_str());
    out.append(" { ");
    out.append(features.state_name.as_str());
    out.append("::builder() } }\n");
    assert(out@ =~= old(out)@ + enum_text(*features));
}

/// Append the functions that return the defaults.
pub fn default_fns(features: &Features, out: &mut String)
    ensures
        final(out)@ == old(out)@ + default_fns_text(
            features.features@,
            features.features.len() as nat,
        ),
{
    let mut at: usize = 0;
    assert(out@ =~= old(out)@ + default_fns_text(features.features@, 0));
    while at < features.features.len()
        invariant
            at <= features.features.len(),
            out@ == old(out)@ + default_fns_text(features.features@, at as nat),
        decreases features.features.len() - at,
    {
        out.append("pub fn ");
        out.append(features.features[at].default_fn.as_str());
        out.append("() -> bool { ");
        if features.features[at].default {
            out.append("true");
        } else {
            out.append("false");
        }
        out.append(" } ");
        assert(out@ =~= old(out)@ + default_fns_text(features.features@, (at + 1) as nat));
        at += 1;
    }
}

/// Append the state record, with the functions of its defaults and its
/// restart comparison.
pub fn make_features_state_struct(features: &Features, out: &mut String)
    ensures
        final(out)@ == old(out)@ + state_struct_text(*features),
{
    out.append("#[derive(::serde::Serialize, ::serde::Deserialize, Debug, PartialEq)]\n");
    write_visibility(&features.visibility, out);
    out.append("struct ");
    out.append(features.state_name.as_str());
    out.append(" { ");
    let ghost start = out@;
    let mut at: usize = 0;
    assert(out@ =~= start + state_fields_text(features.features@, 0));
    while at < features.features.len()
        invariant
            at <= features.features.len(),
            out@ == start + state_fields_text(features.features@, at as nat),
        decreases features.features.len() - at,
    {
        out.append(features.features[at].field.as_str());
        out.append(": bool, ");
        assert(out@ =~= start + state_fields_text(features.features@, (at + 1) as nat));
        at += 1;
    }
    out.append("}\n");
    out.append("impl ");
    out.append(features.state_name.as_str());
    out.append(" { pub fn builder() -> ");
    out.append(features.state_builder_name.as_str());
    out.append(" { ");
    out.append(features.state_builder_name.as_str());
    out.append("::new() } ");
    default_fns(features, out);
    out.append("}\n");
    let paths = restart_fields(features);
    restart_required(&features.state_name, &paths, out);
    assert(out@ =~= old(out)@ + state_struct_text(*features));
}

/// Append the default of the state record.
pub fn default_impl(features: &Features, out: &mut String)
    ensures
        final(out)@ == old(out)@ + default_impl_text(*features),
{
    out.append("impl Default for ");
    out.append(features.state_name.as_str());
    out.append(" { fn default() -> Self { Self { ");
    let ghost start = out@;
    let mut at: usize = 0;
    assert(out@ =~= start + default_fields_text(features.features@, 0));
    while at < features.features.len()
        invariant
            at <= features.features.len(),
            out@ == start + default_fields_text(features.features@, at as nat),
        decreases features.features.len() - at,
    {
        out.append(features.features[at].field.as_str());
        out.append(": Self::");
        out.append(features.features[at].default_fn.as_str());
        out.append("(), ");
        assert(out@ =~= start + default_fields_text(features.features@, (at + 1) as nat));
        at += 1;
    }
    out.append("} } }\n");
    assert(out@ =~= old(out)@ + default_impl_text(*features));
}

/// Append the lookup by feature, and the tie between the enumeration and
/// its state record.
pub fn as_feature_and_feature_set_impls(features: &Features, out: &mut String)
    ensures
        final(out)@ == old(out)@ + as_feature_text(*features),
{
    out.append("impl ::conspiracy::feature_control::AsFeature for ");
    out.append(features.state_name.as_str());
    out.append(" { type Feature = ");
    out.append(features.name.as_str());
    out.append("; #[inline] fn as_feature(&self, feature: ");
    out.append(features.name.as_str());
    out.append(") -> bool { match feature { ");
    let ghost start = out@;
    let mut at: usize = 0;
    assert(out@ =~= start + branches_text(features.name@, features.features@, 0));
    while at < features.features.len()
        invariant
            at <= features.features.len(),
            out@ == start + branches_text(features.name@, features.features@, at as nat),
        decreases features.features.len() - at,
    {
        out.append(features.name.as_str());
        out.append("::");
        out.append(features.features[at].variant.as_str());
        out.append(" => self.");
        out.append(features.features[at].field.as_str());
        out.append(", ");
        assert(out@ =~= start + branches_text(
            features.name@,
            features.features@,
            (at + 1) as nat,
        ));
        at += 1;
    }
    out.append("} } fn name() -> String { String::from(\"");
    out.append(features.state_name.as_str());
    out.append("\") } }\n");
    out.append("impl ::conspiracy::feature_control::FeatureSet for ");
    out.append(features.name.as_str());
    out.append(" { type State = ");
    out.append(features.state_name.as_str());
    out.append("; }\n");
    assert(out@ =~= old(out)@ + as_feature_text(*features));
}

/// Append the setters of the builder.
pub fn builder_fns(features: &Features, out: &mut String)
    ensures
        final(out)@ == old(out)@ + setters_text(features.features@, features.features.len() as nat),
{
    let mut at: usize = 0;
    assert(out@ =~= old(out)@ + setters_text(features.features@, 0));
    while at < features.features.len()
        invariant
            at <= features.features.len(),
            out@ == old(out)@ + setters_text(features.features@, at as nat),
        decreases features.features.len() - at,
    {
        out.append("pub fn ");
        out.append(features.features[at].field.as_str());
        out.append("(mut self, value: bool) -> Self { self.state.");
        out.append(features.features[at].field.as_str());
        out.append(" = value; self } ");
        assert(out@ =~= old(out)@ + setters_text(features.features@, (at + 1) as nat));
        at += 1;
    }
}

/// Append the builder of the state record.
pub fn make_builder(features: &Features, out: &mut String)
    ensures
        final(out)@ == old(out)@ + builder_text(*features),
{
    write_visibility(&features.visibility, out);
    out.append("struct ");
    out.append(features.state_builder_name.as_str());
    out.append(" { state: ");
    out.append(features.state_name.as_str());
    out.append(", }\n");
    out.append("impl ");
    out.append(features.state_builder_name.as_str());
    out.append(" { pub fn new() -> Self { Self { state: ");
    out.append(features.state_name.as_str());
    out.append("::default() } } pub fn build(self) -> ");
    out.append(features.state_name.as_str());
    out.append(" { self.state } ");
    builder_fns(features, out);
    out.append("}\n");
    assert(out@ =~= old(out)@ + builder_text(*features));
}

/// Everything that is generated for a feature schema, as source text.
pub fn generate_features(features: &Features) -> (text: String)
    ensures
        text@ == features_text(*features),
{
    let mut text = String::new();
    make_features_enum(features, &mut text);
    make_features_state_struct(features, &mut text);
    default_impl(features, &mut text);
    as_feature_and_feature_set_impls(features, &mut text);
    make_builder(features, &mut text);
    assert(text@ =~= features_text(*features));
    text
}

} // verus!

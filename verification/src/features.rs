//! The feature schema compiler: from a flat list of features with their
//! defaults to the names of what is generated for it, and the state record
//! with its builder, lookup and restart comparison.
use crate::feature_control::AsFeature;
use convert_case::Case;
use convert_case::Casing;
use vstd::prelude::*;
use vstd::string::StringExecFns;

verus! {

/// The two ways in which a feature's name is written.
#[derive(Clone, Copy, Debug, PartialEq, Eq, Structural)]
pub enum CaseStyle {
    /// Lower case words joined by underscores: a field or function name.
    Snake,
    /// Capitalised words with nothing between them: a variant name.
    Pascal,
}

/// What `convert_case` makes of `text` in the given style.
pub uninterp spec fn cased(text: Seq<char>, style: CaseStyle) -> Seq<char>;

/// `Casing::to_case` of `convert_case`, with that crate's default word
/// boundaries: the text split into words and joined again in the style
/// asked for. The result depends on the text and the style alone.
#[verifier::external_body]
pub(crate) fn to_case(text: &str, style: CaseStyle) -> (converted: String)
    ensures
        converted@ == cased(text@, style),
{
    match style {
        CaseStyle::Snake => text.to_case(Case::Snake),
        CaseStyle::Pascal => text.to_case(Case::Pascal),
    }
}

/// A declared feature.
pub struct FeatureDecl {
    /// The name as the declaration wrote it.
    pub name: String,
    /// Whether the feature is on where nothing says otherwise.
    pub default: bool,
    /// Whether a change of the feature calls for a restart.
    pub restart: bool,
}

/// A flat feature schema: an enumeration of features with their defaults.
pub struct FeatureSchema {
    /// The visibility, passed through; empty where none was written.
    pub visibility: String,
    /// The name of the enumeration.
    pub name: String,
    /// The features, in declaration order.
    pub features: Vec<FeatureDecl>,
}

/// A declared feature with its name as a sequence of characters.
pub struct FeatureDeclModel {
    pub name: Seq<char>,
    pub default: bool,
    pub restart: bool,
}

/// A feature schema with its texts as sequences of characters.
pub struct FeatureSchemaModel {
    pub visibility: Seq<char>,
    pub name: Seq<char>,
    pub features: Seq<FeatureDeclModel>,
}

impl View for FeatureDecl {
    type V = FeatureDeclModel;

    open spec fn view(&self) -> FeatureDeclModel {
        FeatureDeclModel { name: self.name@, default: self.default, restart: self.restart }
    }
}

/// The views of a sequence of declared features.
pub open spec fn decl_models(features: Seq<FeatureDecl>) -> Seq<FeatureDeclModel> {
    Seq::new(features.len(), |i: int| features[i]@)
}

impl View for FeatureSchema {
    type V = FeatureSchemaModel;

    open spec fn view(&self) -> FeatureSchemaModel {
        FeatureSchemaModel {
            visibility: self.visibility@,
            name: self.name@,
            features: decl_models(self.features@),
        }
    }
}

/// A feature with the names generated for it.
pub struct Feature {
    /// The variant of the enumeration.
    pub variant: String,
    /// The field of the state record, and the builder's setter.
    pub field: String,
    /// The function that returns the default.
    pub default_fn: String,
    /// Whether the feature is on where nothing says otherwise.
    pub default: bool,
    /// Whether a change of the feature calls for a restart.
    pub restart: bool,
}

/// What is generated for a feature schema.
pub struct Features {
    /// The visibility, passed through.
    pub visibility: String,
    /// The name of the enumeration.
    pub name: String,
    /// The name of the state record.
    pub state_name: String,
    /// The name of the state record's builder.
    pub state_builder_name: String,
    /// The features, in declaration order.
    pub features: Vec<Feature>,
}

/// The name of the state record of the enumeration `name`.
pub open spec fn state_name_of(name: Seq<char>) -> Seq<char> {
    name + "State"@
}

/// The name of the builder of the enumeration `name`.
pub open spec fn builder_name_of(name: Seq<char>) -> Seq<char> {
    state_name_of(name) + "Builder"@
}

/// The name of the function that returns the default of the feature whose
/// field is `field`.
pub open spec fn default_fn_of(field: Seq<char>) -> Seq<char> {
    "default_"@ + field
}

impl Feature {
    /// Whether the feature is what is generated for `decl`.
    pub open spec fn compiled_from(&self, decl: FeatureDecl) -> bool {
        self.compiled_from_model(decl@)
    }

    /// Whether the feature is what is generated for the declaration that
    /// `decl` is the view of.
    pub open spec fn compiled_from_model(&self, decl: FeatureDeclModel) -> bool {
        &&& self.variant@ == cased(decl.name, CaseStyle::Pascal)
        &&& self.field@ == cased(decl.name, CaseStyle::Snake)
        &&& self.default_fn@ == default_fn_of(self.field@)
        &&& self.default == decl.default
        &&& self.restart == decl.restart
    }
}

impl Features {
    /// Whether this is what is generated for `schema`.
    pub open spec fn compiled_from(&self, schema: FeatureSchema) -> bool {
        &&& self.visibility@ == schema.visibility@
        &&& self.name@ == schema.name@
        &&& self.state_name@ == state_name_of(schema.name@)
        &&& self.state_builder_name@ == builder_name_of(schema.name@)
        &&& self.features.len() == schema.features.len()
        &&& forall|i: int|
            0 <= i < self.features.len() ==> (#[trigger] self.features[i]).compiled_from(
                schema.features[i],
            )
    }

    /// Whether this is what is generated for the schema that `model` is
    /// the view of.
    pub open spec fn compiled_from_model(&self, model: FeatureSchemaModel) -> bool {
        &&& self.visibility@ == model.visibility
        &&& self.name@ == model.name
        &&& self.state_name@ == state_name_of(model.name)
        &&& self.state_builder_name@ == builder_name_of(model.name)
        &&& self.features.len() == model.features.len()
        &&& forall|i: int|
            0 <= i < self.features.len() ==> (#[trigger] self.features[i]).compiled_from_model(
                model.features[i],
            )
    }

    /// The defaults of the features, in order.
    pub open spec fn defaults(&self) -> Seq<bool> {
        Seq::new(self.features.len() as nat, |i: int| self.features[i].default)
    }

    /// Whether two states differ in a feature that is tagged as triggering
    /// a restart.
    pub open spec fn tagged_differs(&self, left: Seq<bool>, right: Seq<bool>) -> bool {
        exists|i: int|
            0 <= i < self.features.len() && (#[trigger] self.features[i]).restart && left[i]
                != right[i]
    }

    /// Whether a state has one value for each feature.
    pub open spec fn fits(&self, state: &FeatureState) -> bool {
        state@.len() == self.features.len()
    }
}

/// Compile a feature declaration: its names in the two styles.
pub fn compile_feature(decl: &FeatureDecl) -> (feature: Feature)
    ensures
        feature.compiled_from(*decl),
{
    let field = to_case(decl.name.as_str(), CaseStyle::Snake);
    let default_fn = String::from_str("default_").concat(field.as_str());
    Feature {
        variant: to_case(decl.name.as_str(), CaseStyle::Pascal),
        field,
        default_fn,
        default: decl.default,
        restart: decl.restart,
    }
}

/// Compile a feature schema: the names of the enumeration's variants, of
/// the state record with its fields, of its builder and of the functions
/// that return the defaults.
pub fn compile_features(schema: &FeatureSchema) -> (features: Features)
    ensures
        features.compiled_from(*schema),
{
    let mut compiled: Vec<Feature> = Vec::new();
    let mut at: usize = 0;
    while at < schema.features.len()
        invariant
            at <= schema.features.len(),
            compiled.len() == at,
            forall|i: int|
                0 <= i < at ==> (#[trigger] compiled[i]).compiled_from(schema.features[i]),
        decreases schema.features.len() - at,
    {
        compiled.push(compile_feature(&schema.features[at]));
        at += 1;
    }
    let state_name = schema.name.clone().concat("State");
    let state_builder_name = state_name.clone().concat("Builder");
    Features {
        visibility: schema.visibility.clone(),
        name: schema.name.clone(),
        state_name,
        state_builder_name,
        features: compiled,
    }
}

/// The state of the features of one schema: one boolean for each, in
/// declaration order.
pub struct FeatureState {
    values: Vec<bool>,
}

impl View for FeatureState {
    type V = Seq<bool>;

    closed spec fn view(&self) -> Seq<bool> {
        self.values@
    }
}

impl AsFeature for FeatureState {
    type Feature = usize;

    open spec fn enabled(&self, feature: usize) -> bool {
        feature < self@.len() && self@[feature as int]
    }

    open spec fn record_name() -> Seq<char> {
        "FeatureState"@
    }

    /// Whether the feature at position `feature` is on; a position that the
    /// state does not have is off.
    fn as_feature(&self, feature: usize) -> (on: bool) {
        feature < self.values.len() && self.values[feature]
    }

    fn name() -> (name: String) {
        String::from_str("FeatureState")
    }
}

impl FeatureState {
    /// Whether two states differ in a feature that is tagged as triggering
    /// a restart. Features without the tag never count, and where none is
    /// tagged a restart is never required.
    pub fn restart_required(&self, other: &FeatureState, features: &Features) -> (restart: bool)
        requires
            features.fits(self),
            features.fits(other),
        ensures
            restart == features.tagged_differs(self@, other@),
    {
        let mut at: usize = 0;
        while at < features.features.len()
            invariant
                at <= features.features.len(),
                features.fits(self),
                features.fits(other),
                forall|i: int|
                    0 <= i < at ==> !((#[trigger] features.features[i]).restart && self@[i]
                        != other@[i]),
            decreases features.features.len() - at,
        {
            if features.features[at].restart && self.values[at] != other.values[at] {
                return true;
            }
            at += 1;
        }
        false
    }

    /// The values, in declaration order.
    pub fn values(&self) -> (values: &Vec<bool>)
        ensures
            values@ == self@,
    {
        &self.values
    }
}

/// Builds a state, starting from the defaults.
pub struct FeatureStateBuilder {
    state: FeatureState,
}

impl FeatureStateBuilder {
    /// The state that `build` would return now.
    pub closed spec fn pending(&self) -> Seq<bool> {
        self.state@
    }

    /// A builder seeded with the default of every feature.
    pub fn new(features: &Features) -> (builder: FeatureStateBuilder)
        ensures
            builder.pending() == features.defaults(),
    {
        FeatureStateBuilder { state: features.default_state() }
    }

    /// Set the feature at position `feature`.
    pub fn set(self, feature: usize, value: bool) -> (builder: FeatureStateBuilder)
        requires
            feature < self.pending().len(),
        ensures
            builder.pending() == self.pending().update(feature as int, value),
    {
        let mut state = self.state;
        state.values.set(feature, value);
        FeatureStateBuilder { state }
    }

    /// The state that was built.
    pub fn build(self) -> (state: FeatureState)
        ensures
            state@ == self.pending(),
    {
        self.state
    }
}

impl Features {
    /// The default of the feature at position `feature`.
    pub fn default_of(&self, feature: usize) -> (default: bool)
        requires
            feature < self.features.len(),
        ensures
            default == self.defaults()[feature as int],
    {
        self.features[feature].default
    }

    /// The state in which every feature has its default.
    pub fn default_state(&self) -> (state: FeatureState)
        ensures
            state@ == self.defaults(),
            self.fits(&state),
    {
        let mut values: Vec<bool> = Vec::new();
        let mut at: usize = 0;
        while at < self.features.len()
            invariant
                at <= self.features.len(),
                values.len() == at,
                forall|i: int| 0 <= i < at ==> values[i] == self.features[i].default,
            decreases self.features.len() - at,
        {
            values.push(self.features[at].default);
            at += 1;
        }
        assert(values@ =~= self.defaults());
        FeatureState { values }
    }

    /// A builder seeded with the defaults.
    pub fn builder(&self) -> (builder: FeatureStateBuilder)
        ensures
            builder.pending() == self.defaults(),
    {
        FeatureStateBuilder::new(self)
    }

    /// The position of the feature whose variant is called `variant`.
    pub fn position_of(&self, variant: &String) -> (position: Option<usize>)
        ensures
            match position {
                Some(index) => {
                    &&& index < self.features.len()
                    &&& self.features[index as int].variant@ == variant@
                    &&& forall|i: int|
                        0 <= i < index ==> (#[trigger] self.features[i]).variant@ != variant@
                },
                None => forall|i: int|
                    0 <= i < self.features.len() ==> (#[trigger] self.features[i]).variant@
                        != variant@,
            },
    {
        let mut at: usize = 0;
        while at < self.features.len()
            invariant
                at <= self.features.len(),
                forall|i: int| 0 <= i < at ==> (#[trigger] self.features[i]).variant@ != variant@,
            decreases self.features.len() - at,
        {
            if self.features[at].variant == *variant {
                return Some(at);
            }
            at += 1;
        }
        None
    }
}

} // verus!

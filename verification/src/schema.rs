//! The schema model: the in-memory form of a declared nested configuration.
//!
//! A node has a type name and an ordered list of fields. A field is a leaf,
//! whose value type is opaque here, or holds a nested node. Nesting is by
//! value, so a schema is a finite tree. A schema is valid when no node has
//! two fields of one name and no two nodes have one type name; the second
//! rule also keeps a node from holding a node of its own type.
use crate::text::all_distinct;
use crate::text::find_first_repeat;
use crate::text::first_repeat_of;
use crate::text::lemma_first_repeat_of;
use crate::text::texts;
use vstd::prelude::*;
use vstd::string::StringExecFns;

verus! {

/// What a field holds.
pub enum FieldKind {
    /// A value of an opaque type, written as the declaration wrote it.
    Leaf(String),
    /// A nested node.
    Nested(SchemaNode),
}

/// A named field of a node.
pub struct SchemaField {
    /// The field's name, unique within its node.
    pub name: String,
    /// The annotations that are passed through, in order.
    pub annotations: Vec<String>,
    /// The visibility, passed through; empty where none was written.
    pub visibility: String,
    /// Whether a change of this field calls for a restart.
    pub restart: bool,
    /// What the field holds.
    pub kind: FieldKind,
}

/// A configuration node: a type with an ordered list of fields.
pub struct SchemaNode {
    /// The node's type name, unique in the whole schema.
    pub ident: String,
    /// The annotations that are passed through, in order.
    pub annotations: Vec<String>,
    /// The visibility, passed through; empty where none was written.
    pub visibility: String,
    /// The fields, in declaration order.
    pub fields: Vec<SchemaField>,
}

/// Where a declaration leaves the grammar.
#[derive(Clone, Copy, Debug, PartialEq, Eq, Structural)]
pub enum ParseFault {
    /// The text is not a sequence of tokens: a bracket is not closed, or a
    /// literal does not end.
    NotTokens,
    /// The keyword that opens a declaration is missing.
    ExpectedKeyword,
    /// The name of a type, a field or a feature is missing.
    ExpectedName,
    /// A name is a keyword, or no identifier at all.
    InvalidName,
    /// The braces with the fields or features are missing.
    ExpectedBody,
    /// The colon after a field's name is missing.
    ExpectedColon,
    /// A field has no type.
    ExpectedType,
    /// What stands for a field's type is not a type.
    InvalidType,
    /// What follows `pub` is no restriction of a visibility.
    InvalidVisibility,
    /// What stands in an attribute's brackets is no attribute.
    InvalidAttribute,
    /// The path of a variant is no path.
    InvalidPath,
    /// The value to fall back on is no expression.
    InvalidExpression,
    /// The arrow after a feature's name is missing.
    ExpectedArrow,
    /// A feature's default is neither `true` nor `false`.
    ExpectedDefault,
    /// Two fields or features are not separated by a comma.
    ExpectedComma,
    /// One field, node or feature is tagged twice.
    RepeatedTag,
    /// Something follows the declaration.
    TrailingTokens,
}

/// Why a schema is refused.
#[derive(Debug)]
pub enum SchemaError {
    /// The declaration does not follow the grammar.
    Parse(ParseFault),
    /// A node has two fields of one name.
    DuplicateField { node: String, field: String },
    /// Two nodes have one type name.
    DuplicateType { name: String },
}

/// What a field holds, with its texts as sequences of characters.
pub enum KindModel {
    Leaf(Seq<char>),
    Nested(NodeModel),
}

/// A field with its texts as sequences of characters.
pub struct FieldModel {
    pub name: Seq<char>,
    pub annotations: Seq<Seq<char>>,
    pub visibility: Seq<char>,
    pub restart: bool,
    pub kind: KindModel,
}

/// A node with its texts as sequences of characters.
pub struct NodeModel {
    pub ident: Seq<char>,
    pub annotations: Seq<Seq<char>>,
    pub visibility: Seq<char>,
    pub fields: Seq<FieldModel>,
}

impl SchemaField {
    /// The field with its texts as sequences of characters.
    pub open spec fn model(self) -> FieldModel
        decreases self,
    {
        FieldModel {
            name: self.name@,
            annotations: texts(self.annotations@),
            visibility: self.visibility@,
            restart: self.restart,
            kind: match self.kind {
                FieldKind::Leaf(ty) => KindModel::Leaf(ty@),
                FieldKind::Nested(node) => KindModel::Nested(node.model()),
            },
        }
    }
}

impl SchemaNode {
    /// The node with its texts as sequences of characters.
    pub open spec fn model(self) -> NodeModel
        decreases self,
    {
        NodeModel {
            ident: self.ident@,
            annotations: texts(self.annotations@),
            visibility: self.visibility@,
            fields: Seq::new(
                self.fields.len() as nat,
                |i: int|
                    if 0 <= i < self.fields.len() {
                        self.fields[i].model()
                    } else {
                        arbitrary()
                    },
            ),
        }
    }
}

/// The views of a sequence of fields.
pub open spec fn field_models(fields: Seq<SchemaField>) -> Seq<FieldModel> {
    Seq::new(fields.len(), |i: int| fields[i].model())
}

impl View for SchemaNode {
    type V = NodeModel;

    open spec fn view(&self) -> NodeModel {
        self.model()
    }
}

impl SchemaNode {
    /// The names of the node's own fields, in order.
    pub open spec fn field_names(&self) -> Seq<Seq<char>> {
        Seq::new(self.fields.len() as nat, |i: int| self.fields[i].name@)
    }

    /// The type names of the node and of every node below it, parents
    /// before children and fields in order.
    pub open spec fn type_names(&self) -> Seq<Seq<char>>
        decreases self, self.fields.len() + 1,
    {
        seq![self.ident@] + self.type_names_below(self.fields.len() as nat)
    }

    /// The type names of the nodes under the first `upto` fields.
    pub open spec fn type_names_below(&self, upto: nat) -> Seq<Seq<char>>
        decreases self, upto,
    {
        if upto == 0 || upto > self.fields.len() {
            Seq::empty()
        } else {
            self.type_names_below((upto - 1) as nat) + (match self.fields[upto - 1].kind {
                FieldKind::Nested(node) => node.type_names(),
                FieldKind::Leaf(_) => Seq::empty(),
            })
        }
    }

    /// Whether no node, this one and those below, has two fields of one
    /// name.
    pub open spec fn fields_distinct(&self) -> bool
        decreases self, self.fields.len() + 1,
    {
        all_distinct(self.field_names()) && self.fields_distinct_below(self.fields.len() as nat)
    }

    /// Whether the nodes under the first `upto` fields have distinct field
    /// names.
    pub open spec fn fields_distinct_below(&self, upto: nat) -> bool
        decreases self, upto,
    {
        if upto == 0 || upto > self.fields.len() {
            true
        } else {
            self.fields_distinct_below((upto - 1) as nat) && (match self.fields[upto - 1].kind {
                FieldKind::Nested(node) => node.fields_distinct(),
                FieldKind::Leaf(_) => true,
            })
        }
    }

    /// Where no node has two fields of one name, none below a field has.
    pub proof fn lemma_fields_distinct_at(&self, at: int)
        requires
            self.fields_distinct(),
            0 <= at < self.fields.len(),
        ensures
            all_distinct(self.field_names()),
            self.fields[at].kind matches FieldKind::Nested(child) ==> child.fields_distinct(),
    {
        self.lemma_fields_distinct_upto(self.fields.len() as nat, at);
    }

    /// The same, among the first `upto` fields.
    pub proof fn lemma_fields_distinct_upto(&self, upto: nat, at: int)
        requires
            self.fields_distinct_below(upto),
            0 <= at < upto <= self.fields.len(),
        ensures
            self.fields[at].kind matches FieldKind::Nested(child) ==> child.fields_distinct(),
        decreases upto,
    {
        if at < upto - 1 {
            self.lemma_fields_distinct_upto((upto - 1) as nat, at);
        }
    }

    /// Whether the schema can be compiled.
    pub open spec fn valid(&self) -> bool {
        all_distinct(self.type_names()) && self.fields_distinct()
    }

    /// The first clash of field names: the type of the first node, parents
    /// before children, that has two fields of one name, with the name of
    /// its first field that repeats an earlier one.
    pub open spec fn field_clash(&self) -> Option<(Seq<char>, Seq<char>)>
        decreases self, self.fields.len() + 1,
    {
        match first_repeat_of(self.field_names()) {
            Some(index) => Some((self.ident@, self.field_names()[index])),
            None => self.field_clash_below(self.fields.len() as nat),
        }
    }

    /// The first clash of field names in the nodes under the first `upto`
    /// fields.
    pub open spec fn field_clash_below(&self, upto: nat) -> Option<(Seq<char>, Seq<char>)>
        decreases self, upto,
    {
        if upto == 0 || upto > self.fields.len() {
            None
        } else {
            match self.field_clash_below((upto - 1) as nat) {
                Some(clash) => Some(clash),
                None => match self.fields[upto - 1].kind {
                    FieldKind::Nested(node) => node.field_clash(),
                    FieldKind::Leaf(_) => None,
                },
            }
        }
    }

    /// The first type name, parents before children, that an earlier node
    /// has too.
    pub open spec fn type_clash(&self) -> Option<Seq<char>> {
        match first_repeat_of(self.type_names()) {
            Some(index) => Some(self.type_names()[index]),
            None => None,
        }
    }

    /// The error that validation reports, if the schema is not valid: a
    /// clash of type names comes before a clash of field names.
    pub open spec fn first_error(&self) -> Option<SchemaFault> {
        match self.type_clash() {
            Some(name) => Some(SchemaFault::DuplicateType { name }),
            None => match self.field_clash() {
                Some((node, field)) => Some(SchemaFault::DuplicateField { node, field }),
                None => None,
            },
        }
    }

    /// A node has a clash of field names exactly when its field names are
    /// not distinct somewhere.
    pub proof fn lemma_field_clash(&self)
        ensures
            self.field_clash() is None <==> self.fields_distinct(),
        decreases self, self.fields.len() + 1,
    {
        lemma_first_repeat_of(self.field_names());
        self.lemma_field_clash_below(self.fields.len() as nat);
    }

    /// The same, for the nodes under the first `upto` fields.
    pub proof fn lemma_field_clash_below(&self, upto: nat)
        ensures
            self.field_clash_below(upto) is None <==> self.fields_distinct_below(upto),
        decreases self, upto,
    {
        if upto == 0 || upto > self.fields.len() {
        } else {
            self.lemma_field_clash_below((upto - 1) as nat);
            match self.fields[upto - 1].kind {
                FieldKind::Nested(node) => {
                    node.lemma_field_clash();
                },
                FieldKind::Leaf(_) => {},
            }
        }
    }

    /// A schema is valid exactly when validation has nothing to report.
    pub proof fn lemma_first_error(&self)
        ensures
            self.first_error() is None <==> self.valid(),
    {
        lemma_first_repeat_of(self.type_names());
        self.lemma_field_clash();
    }

    /// Append the type names of the node and of the nodes below it.
    pub fn collect_type_names(&self, names: &mut Vec<String>)
        ensures
            texts(final(names)@) == texts(old(names)@) + self.type_names(),
        decreases self, self.fields.len() + 1,
    {
        names.push(self.ident.clone());
        assert(texts(names@) =~= texts(old(names)@) + seq![self.ident@]);
        let mut at: usize = 0;
        while at < self.fields.len()
            invariant
                at <= self.fields.len(),
                texts(names@) == texts(old(names)@) + seq![self.ident@] + self.type_names_below(
                    at as nat,
                ),
            decreases self.fields.len() - at,
        {
            let ghost before = names@;
            match &self.fields[at].kind {
                FieldKind::Nested(node) => {
                    node.collect_type_names(names);
                },
                FieldKind::Leaf(_) => {},
            }
            assert(texts(names@) =~= texts(old(names)@) + seq![self.ident@]
                + self.type_names_below((at + 1) as nat));
            at += 1;
        }
        assert(texts(names@) =~= texts(old(names)@) + self.type_names());
    }

    /// The names of the node's own fields.
    pub fn own_field_names(&self) -> (names: Vec<String>)
        ensures
            texts(names@) == self.field_names(),
    {
        let mut names: Vec<String> = Vec::new();
        let mut at: usize = 0;
        while at < self.fields.len()
            invariant
                at <= self.fields.len(),
                names.len() == at,
                forall|i: int| 0 <= i < at ==> #[trigger] names[i]@ == self.fields[i].name@,
            decreases self.fields.len() - at,
        {
            names.push(self.fields[at].name.clone());
            at += 1;
        }
        assert(texts(names@) =~= self.field_names());
        names
    }

    /// Look for the first clash of field names, parents before children.
    pub fn find_field_clash(&self) -> (clash: Option<(String, String)>)
        ensures
            match clash {
                Some((node, field)) => self.field_clash() == Some((node@, field@)),
                None => self.field_clash() is None,
            },
        decreases self, self.fields.len() + 1,
    {
        let names = self.own_field_names();
        match find_first_repeat(&names) {
            Some(index) => {
                return Some((self.ident.clone(), names[index].clone()));
            },
            None => {},
        }
        let mut at: usize = 0;
        while at < self.fields.len()
            invariant
                at <= self.fields.len(),
                first_repeat_of(self.field_names()) is None,
                self.field_clash_below(at as nat) is None,
            decreases self.fields.len() - at,
        {
            match &self.fields[at].kind {
                FieldKind::Nested(node) => {
                    match node.find_field_clash() {
                        Some(clash) => {
                            assert(self.field_clash_below((at + 1) as nat) == Some(
                                (clash.0@, clash.1@),
                            ));
                            proof {
                                self.lemma_clash_below_stays(
                                    (at + 1) as nat,
                                    self.fields.len() as nat,
                                );
                            }
                            return Some(clash);
                        },
                        None => {},
                    }
                },
                FieldKind::Leaf(_) => {},
            }
            at += 1;
        }
        None
    }

    /// A clash under the first `upto` fields is the clash under any longer
    /// run of fields.
    pub proof fn lemma_clash_below_stays(&self, upto: nat, longer: nat)
        requires
            upto <= longer <= self.fields.len(),
            self.field_clash_below(upto) is Some,
        ensures
            self.field_clash_below(longer) == self.field_clash_below(upto),
        decreases longer,
    {
        if upto < longer {
            self.lemma_clash_below_stays(upto, (longer - 1) as nat);
        }
    }

    /// The position of the first field called `name`.
    pub fn field_position(&self, name: &String) -> (position: Option<usize>)
        ensures
            self.field_names().index_of_first(name@) == (match position {
                Some(index) => Some(index as int),
                None => None,
            }),
            position matches Some(index) ==> index < self.fields.len(),
    {
        let mut at: usize = 0;
        while at < self.fields.len()
            invariant
                at <= self.fields.len(),
                forall|i: int| 0 <= i < at ==> #[trigger] self.field_names()[i] != name@,
            decreases self.fields.len() - at,
        {
            if self.fields[at].name == *name {
                proof {
                    assert(self.field_names()[at as int] == name@);
                    self.field_names().index_of_first_ensures(name@);
                }
                return Some(at);
            }
            at += 1;
        }
        proof {
            self.field_names().index_of_first_ensures(name@);
        }
        None
    }

    /// Check that the schema can be compiled, and report the first fault
    /// where it cannot.
    pub fn validate(&self) -> (outcome: Result<(), SchemaError>)
        ensures
            outcome is Ok <==> self.valid(),
            outcome matches Err(e) ==> self.first_error() == Some(e@),
    {
        proof {
            self.lemma_first_error();
        }
        let mut types: Vec<String> = Vec::new();
        self.collect_type_names(&mut types);
        assert(texts(types@) =~= self.type_names());
        match find_first_repeat(&types) {
            Some(index) => {
                return Err(SchemaError::DuplicateType { name: types[index].clone() });
            },
            None => {},
        }
        match self.find_field_clash() {
            Some((node, field)) => Err(SchemaError::DuplicateField { node, field }),
            None => Ok(()),
        }
    }
}

impl ParseFault {
    /// What the fault is, as a sentence.
    pub open spec fn message_text(self) -> Seq<char> {
        match self {
            ParseFault::NotTokens => "the declaration is no sequence of tokens"@,
            ParseFault::ExpectedKeyword => "expected the keyword that opens the declaration"@,
            ParseFault::ExpectedName => "expected a name"@,
            ParseFault::InvalidName => "expected an identifier that is no keyword"@,
            ParseFault::ExpectedBody => "expected braces"@,
            ParseFault::ExpectedColon => "expected `:` after the name of a field"@,
            ParseFault::ExpectedType => "expected a type"@,
            ParseFault::InvalidType => "expected a type, and found something else"@,
            ParseFault::InvalidVisibility => "expected a visibility, and found something else"@,
            ParseFault::InvalidAttribute => "expected an attribute, and found something else"@,
            ParseFault::InvalidPath => "expected the path of a variant, and found something else"@,
            ParseFault::InvalidExpression => "expected an expression, and found something else"@,
            ParseFault::ExpectedArrow => "expected `=>` after the name of a feature"@,
            ParseFault::ExpectedDefault => "expected `true` or `false`"@,
            ParseFault::ExpectedComma => "expected `,`"@,
            ParseFault::RepeatedTag => "You can't use multiple conspiracy attributes on a single field"@,
            ParseFault::TrailingTokens => "unexpected tokens after the declaration"@,
        }
    }

    /// The fault as a sentence.
    pub fn message(self) -> (text: String)
        ensures
            text@ == self.message_text(),
    {
        match self {
            ParseFault::NotTokens => String::from_str("the declaration is no sequence of tokens"),
            ParseFault::ExpectedKeyword => String::from_str(
                "expected the keyword that opens the declaration",
            ),
            ParseFault::ExpectedName => String::from_str("expected a name"),
            ParseFault::InvalidName => String::from_str(
                "expected an identifier that is no keyword",
            ),
            ParseFault::ExpectedBody => String::from_str("expected braces"),
            ParseFault::ExpectedColon => String::from_str(
                "expected `:` after the name of a field",
            ),
            ParseFault::ExpectedType => String::from_str("expected a type"),
            ParseFault::InvalidType => String::from_str(
                "expected a type, and found something else",
            ),
            ParseFault::InvalidVisibility => String::from_str(
                "expected a visibility, and found something else",
            ),
            ParseFault::InvalidAttribute => String::from_str(
                "expected an attribute, and found something else",
            ),
            ParseFault::InvalidPath => String::from_str(
                "expected the path of a variant, and found something else",
            ),
            ParseFault::InvalidExpression => String::from_str(
                "expected an expression, and found something else",
            ),
            ParseFault::ExpectedArrow => String::from_str(
                "expected `=>` after the name of a feature",
            ),
            ParseFault::ExpectedDefault => String::from_str("expected `true` or `false`"),
            ParseFault::ExpectedComma => String::from_str("expected `,`"),
            ParseFault::RepeatedTag => String::from_str(
                "You can't use multiple conspiracy attributes on a single field",
            ),
            ParseFault::TrailingTokens => String::from_str(
                "unexpected tokens after the declaration",
            ),
        }
    }
}

impl SchemaFault {
    /// What the error is, as a sentence.
    pub open spec fn message_text(self) -> Seq<char> {
        match self {
            SchemaFault::Parse(fault) => fault.message_text(),
            SchemaFault::DuplicateField { node, field } => "the field `"@ + field
                + "` is declared twice in `"@ + node + "`"@,
            SchemaFault::DuplicateType { name } => "the type `"@ + name
                + "` is declared twice: every type in a config struct hierarchy must be unique"@,
        }
    }
}

impl SchemaError {
    /// The error as a sentence.
    pub fn message(&self) -> (text: String)
        ensures
            text@ == self@.message_text(),
    {
        match self {
            SchemaError::Parse(fault) => fault.message(),
            SchemaError::DuplicateField { node, field } => {
                let mut text = String::from_str("the field `");
                text.append(field.as_str());
                text.append("` is declared twice in `");
                text.append(node.as_str());
                text.append("`");
                text
            },
            SchemaError::DuplicateType { name } => {
                let mut text = String::from_str("the type `");
                text.append(name.as_str());
                text.append(
                    "` is declared twice: every type in a config struct hierarchy must be unique",
                );
                text
            },
        }
    }
}

/// A schema error with its names as sequences of characters.
pub enum SchemaFault {
    Parse(ParseFault),
    DuplicateField { node: Seq<char>, field: Seq<char> },
    DuplicateType { name: Seq<char> },
}

impl View for SchemaError {
    type V = SchemaFault;

    open spec fn view(&self) -> SchemaFault {
        match self {
            SchemaError::Parse(fault) => SchemaFault::Parse(*fault),
            SchemaError::DuplicateField { node, field } => SchemaFault::DuplicateField {
                node: node@,
                field: field@,
            },
            SchemaError::DuplicateType { name } => SchemaFault::DuplicateType { name: name@ },
        }
    }
}

} // verus!

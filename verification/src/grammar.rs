//! The grammar of a configuration declaration, over tokens.
//!
//! ```text
//! node     := attribute* visibility? `struct` NAME `{` fields `}`
//! fields   := ( field ( `,` field )* `,`? )?
//! field    := attribute* visibility? NAME `:` ( node | TYPE )
//! ```
//!
//! An attribute is `#` and a bracketed group. The attribute
//! `#[conspiracy(restart)]` is the tag for fields that trigger a restart;
//! on a node it tags every field of the node. Every other attribute is
//! passed through as text. A type runs up to the next comma that stands
//! outside angle brackets.
//!
//! The grammar reads the structure only. Whether a name is an identifier,
//! a type a type, an attribute an attribute and a visibility a visibility
//! is asked of syn afterwards, text by text.
use crate::schema::field_models;
use crate::schema::FieldKind;
use crate::schema::FieldModel;
use crate::schema::KindModel;
use crate::schema::NodeModel;
use crate::schema::ParseFault;
use crate::schema::SchemaField;
use crate::schema::SchemaNode;
use crate::text::texts;
use crate::tokens::lemma_group_model;
use crate::tokens::push_char;
use crate::tokens::render;
use crate::tokens::token_models;
use crate::tokens::token_text;
use crate::tokens::tokens_text;
use crate::tokens::spacing_after;
use crate::tokens::write_token;
use crate::tokens::Brackets;
use crate::tokens::Token;
use crate::tokens::TokenModel;
use vstd::prelude::*;
use vstd::string::StringExecFns;

verus! {

/// Whether the token is the identifier or keyword `word`.
pub open spec fn is_word(token: TokenModel, word: Seq<char>) -> bool {
    token == TokenModel::Ident(word)
}

/// Whether the token is the punctuation mark `mark`.
pub open spec fn is_mark(token: TokenModel, mark: char) -> bool {
    token matches TokenModel::Punct(found, _) && found == mark
}

/// Whether an attribute starts at `pos`.
pub open spec fn attribute_at(tokens: Seq<TokenModel>, pos: int) -> bool {
    &&& 0 <= pos
    &&& pos + 1 < tokens.len()
    &&& is_mark(tokens[pos], '#')
    &&& tokens[pos + 1] matches TokenModel::Group(Brackets::Bracket, _)
}

/// Whether what stands in an attribute's brackets is the restart tag.
pub open spec fn is_restart_tag(inner: Seq<TokenModel>) -> bool {
    &&& inner.len() == 2
    &&& is_word(inner[0], "conspiracy"@)
    &&& inner[1] == TokenModel::Group(
        Brackets::Parenthesis,
        seq![TokenModel::Ident("restart"@)],
    )
}

/// The text of an attribute that is passed through.
pub open spec fn attribute_text(group: TokenModel) -> Seq<char> {
    seq!['#'] + token_text(group)
}

/// What an attribute of this library's own says of a field.
#[derive(Clone, Copy, Debug, PartialEq, Eq, Structural)]
pub enum ConspiracyAttribute {
    /// A change of the field calls for a restart.
    Restart,
}

/// A run of attributes.
pub struct Attributes {
    /// The attributes that are passed through, as text.
    pub passthrough: Seq<Seq<char>>,
    /// The attribute of this library's own in the run, if there is one.
    pub tag: Option<ConspiracyAttribute>,
    /// Whether the run holds more than one attribute of this library's
    /// own.
    pub repeated: bool,
    /// The position after the run.
    pub next: int,
}

/// The run of attributes that starts at `pos`, after what `seen` holds.
pub open spec fn attributes_from(tokens: Seq<TokenModel>, pos: int, seen: Attributes) -> Attributes
    decreases tokens.len() - pos,
{
    if attribute_at(tokens, pos) {
        let group = tokens[pos + 1];
        attributes_from(
            tokens,
            pos + 2,
            if is_restart_tag(group->Group_1) {
                Attributes {
                    passthrough: seen.passthrough,
                    tag: Some(ConspiracyAttribute::Restart),
                    repeated: seen.repeated || seen.tag is Some,
                    next: pos + 2,
                }
            } else {
                Attributes {
                    passthrough: seen.passthrough.push(attribute_text(group)),
                    tag: seen.tag,
                    repeated: seen.repeated,
                    next: pos + 2,
                }
            },
        )
    } else {
        seen
    }
}

/// The run of attributes that starts at `pos`.
pub open spec fn attributes(tokens: Seq<TokenModel>, pos: int) -> Attributes {
    attributes_from(
        tokens,
        pos,
        Attributes { passthrough: Seq::empty(), tag: None, repeated: false, next: pos },
    )
}

/// The visibility that starts at `pos`, as text, and the position after
/// it. Where none is written the text is empty.
pub open spec fn visibility(tokens: Seq<TokenModel>, pos: int) -> (Seq<char>, int) {
    if 0 <= pos < tokens.len() && is_word(tokens[pos], "pub"@) {
        if pos + 1 < tokens.len() && tokens[pos + 1] matches TokenModel::Group(
            Brackets::Parenthesis,
            _,
        ) {
            ("pub"@ + token_text(tokens[pos + 1]), pos + 2)
        } else {
            ("pub"@, pos + 1)
        }
    } else {
        (Seq::empty(), pos)
    }
}

/// Whether what starts at `pos` is a nested node: whether `struct` follows
/// the attributes and the visibility.
pub open spec fn node_starts(tokens: Seq<TokenModel>, pos: int) -> bool {
    let after = visibility(tokens, attributes(tokens, pos).next).1;
    0 <= after < tokens.len() && is_word(tokens[after], "struct"@)
}

/// Whether the `>` at `pos` is the head of an arrow, `->` or `=>`.
pub open spec fn closes_arrow(tokens: Seq<TokenModel>, pos: int) -> bool {
    &&& 0 < pos < tokens.len()
    &&& tokens[pos - 1] matches TokenModel::Punct(mark, joint)
    &&& joint
    &&& (mark == '-' || mark == '=')
}

/// The end of the type that is being read at `pos`, `depth` angle brackets
/// deep: the next comma outside angle brackets, or the end of the tokens.
pub open spec fn type_end(tokens: Seq<TokenModel>, pos: int, depth: nat) -> int
    decreases tokens.len() - pos,
{
    if pos < 0 || pos >= tokens.len() {
        pos
    } else if is_mark(tokens[pos], ',') && depth == 0 {
        pos
    } else if is_mark(tokens[pos], '<') {
        type_end(tokens, pos + 1, depth + 1)
    } else if is_mark(tokens[pos], '>') && !closes_arrow(tokens, pos) && depth > 0 {
        type_end(tokens, pos + 1, (depth - 1) as nat)
    } else {
        type_end(tokens, pos + 1, depth)
    }
}

/// The fields with the restart tag on each.
pub open spec fn tag_all(fields: Seq<FieldModel>) -> Seq<FieldModel> {
    Seq::new(fields.len(), |i: int| FieldModel { restart: true, ..fields[i] })
}

/// The node that starts at `pos`, with the position after it.
pub open spec fn parse_node(tokens: Seq<TokenModel>, pos: int) -> Result<
    (NodeModel, int),
    ParseFault,
>
    decreases tokens, tokens.len() - pos, 1nat,
{
    let found = attributes(tokens, pos);
    let (shown, at) = visibility(tokens, found.next);
    if found.repeated {
        Err(ParseFault::RepeatedTag)
    } else if !(0 <= at < tokens.len() && is_word(tokens[at], "struct"@)) {
        Err(ParseFault::ExpectedKeyword)
    } else if !(at + 1 < tokens.len() && tokens[at + 1] is Ident) {
        Err(ParseFault::ExpectedName)
    } else if !(at + 2 < tokens.len() && tokens[at + 2] matches TokenModel::Group(
        Brackets::Brace,
        _,
    )) {
        Err(ParseFault::ExpectedBody)
    } else {
        match parse_fields(tokens[at + 2]->Group_1, 0, Seq::empty()) {
            Err(fault) => Err(fault),
            Ok(fields) => Ok(
                (
                    NodeModel {
                        ident: tokens[at + 1]->Ident_0,
                        annotations: found.passthrough,
                        visibility: shown,
                        fields: if found.tag is Some {
                            tag_all(fields)
                        } else {
                            fields
                        },
                    },
                    at + 3,
                ),
            ),
        }
    }
}

/// The field that starts at `pos`, with the position after it.
pub open spec fn parse_field(tokens: Seq<TokenModel>, pos: int) -> Result<
    (FieldModel, int),
    ParseFault,
>
    decreases tokens, tokens.len() - pos, 2nat,
{
    let found = attributes(tokens, pos);
    let (shown, at) = visibility(tokens, found.next);
    if found.repeated {
        Err(ParseFault::RepeatedTag)
    } else if !(pos <= at < tokens.len() && tokens[at] is Ident) {
        Err(ParseFault::ExpectedName)
    } else if !(at + 1 < tokens.len() && is_mark(tokens[at + 1], ':')) {
        Err(ParseFault::ExpectedColon)
    } else if node_starts(tokens, at + 2) {
        match parse_node(tokens, at + 2) {
            Err(fault) => Err(fault),
            Ok((node, next)) => Ok(
                (
                    FieldModel {
                        name: tokens[at]->Ident_0,
                        annotations: found.passthrough,
                        visibility: shown,
                        restart: found.tag is Some,
                        kind: KindModel::Nested(node),
                    },
                    next,
                ),
            ),
        }
    } else {
        let end = type_end(tokens, at + 2, 0);
        let ty = render(tokens.subrange(at + 2, end));
        if !(at + 2 < end <= tokens.len()) {
            Err(ParseFault::ExpectedType)
        } else {
            Ok(
                (
                    FieldModel {
                        name: tokens[at]->Ident_0,
                        annotations: found.passthrough,
                        visibility: shown,
                        restart: found.tag is Some,
                        kind: KindModel::Leaf(ty),
                    },
                    end,
                ),
            )
        }
    }
}

/// The fields from `pos` to the end of the tokens, after those of `seen`.
pub open spec fn parse_fields(tokens: Seq<TokenModel>, pos: int, seen: Seq<FieldModel>) -> Result<
    Seq<FieldModel>,
    ParseFault,
>
    decreases tokens, tokens.len() - pos, 3nat,
{
    if pos < 0 || pos >= tokens.len() {
        Ok(seen)
    } else {
        match parse_field(tokens, pos) {
            Err(fault) => Err(fault),
            Ok((field, next)) => if next >= tokens.len() {
                Ok(seen.push(field))
            } else if pos < next && is_mark(tokens[next], ',') {
                parse_fields(tokens, next + 1, seen.push(field))
            } else {
                Err(ParseFault::ExpectedComma)
            },
        }
    }
}

/// The node that the tokens declare: one node and nothing after it.
pub open spec fn parse_declaration(tokens: Seq<TokenModel>) -> Result<NodeModel, ParseFault> {
    match parse_node(tokens, 0) {
        Err(fault) => Err(fault),
        Ok((node, next)) => if next == tokens.len() {
            Ok(node)
        } else {
            Err(ParseFault::TrailingTokens)
        },
    }
}

/// Whether the token is the identifier or keyword `word`.
pub fn token_is_word(token: &Token, word: &str) -> (found: bool)
    ensures
        found == is_word(token@, word@),
{
    match token {
        Token::Ident(text) => *text == String::from_str(word),
        _ => false,
    }
}

/// Whether the token is the punctuation mark `mark`.
pub fn token_is_mark(token: &Token, mark: char) -> (found: bool)
    ensures
        found == is_mark(token@, mark),
{
    match token {
        Token::Punct(found, _) => *found == mark,
        _ => false,
    }
}

/// Whether an attribute starts at `pos`.
pub fn attribute_starts(tokens: &Vec<Token>, pos: usize) -> (found: bool)
    ensures
        found == attribute_at(token_models(tokens@), pos as int),
{
    if pos < tokens.len() && pos + 1 < tokens.len() {
        if token_is_mark(&tokens[pos], '#') {
            match &tokens[pos + 1] {
                Token::Group(Brackets::Bracket, inner) => {
                    proof {
                        lemma_group_model(Brackets::Bracket, *inner);
                    }
                    true
                },
                Token::Group(brackets, inner) => {
                    proof {
                        lemma_group_model(*brackets, *inner);
                    }
                    false
                },
                _ => false,
            }
        } else {
            false
        }
    } else {
        false
    }
}

/// Whether what stands in an attribute's brackets is the restart tag.
pub fn restart_tag(inner: &Vec<Token>) -> (found: bool)
    ensures
        found == is_restart_tag(token_models(inner@)),
{
    if inner.len() != 2 {
        return false;
    }
    if !token_is_word(&inner[0], "conspiracy") {
        return false;
    }
    match &inner[1] {
        Token::Group(brackets, arguments) => {
            proof {
                lemma_group_model(*brackets, *arguments);
            }
            match brackets {
                Brackets::Parenthesis => {
                    if arguments.len() == 1 && token_is_word(&arguments[0], "restart") {
                        assert(token_models(arguments@) =~= seq![TokenModel::Ident("restart"@)]);
                        true
                    } else {
                        proof {
                            if token_models(arguments@) == seq![TokenModel::Ident("restart"@)] {
                                assert(token_models(arguments@).len() == 1);
                                assert(token_models(arguments@)[0] == TokenModel::Ident(
                                    "restart"@,
                                ));
                            }
                        }
                        false
                    }
                },
                _ => false,
            }
        },
        _ => false,
    }
}

/// Note an attribute of this library's own on a field that has none yet.
/// A field takes one such attribute: a second is never handed to this
/// function, the parser reports it as a repeated tag.
pub fn try_set_attribute(old_attr: &mut Option<ConspiracyAttribute>, attr: ConspiracyAttribute)
    requires
        *old(old_attr) is None,
    ensures
        *final(old_attr) == Some(attr),
{
    *old_attr = Some(attr);
}

/// A run of attributes, as the parser holds it.
pub struct ParsedAttributes {
    /// The attributes that are passed through, as text.
    pub passthrough: Vec<String>,
    /// The attribute of this library's own in the run, if there is one.
    pub tag: Option<ConspiracyAttribute>,
    /// Whether the run holds more than one attribute of this library's
    /// own.
    pub repeated: bool,
    /// The position after the run.
    pub next: usize,
}

impl View for ParsedAttributes {
    type V = Attributes;

    open spec fn view(&self) -> Attributes {
        Attributes {
            passthrough: texts(self.passthrough@),
            tag: self.tag,
            repeated: self.repeated,
            next: self.next as int,
        }
    }
}

/// The run of attributes that starts at `pos`.
pub fn extract_conspiracy_attributes(tokens: &Vec<Token>, pos: usize) -> (found: ParsedAttributes)
    requires
        pos <= tokens.len(),
    ensures
        found@ == attributes(token_models(tokens@), pos as int),
        pos <= found.next <= tokens.len(),
{
    let ghost models = token_models(tokens@);
    let mut found = ParsedAttributes {
        passthrough: Vec::new(),
        tag: None,
        repeated: false,
        next: pos,
    };
    assert(found@.passthrough =~= Seq::<Seq<char>>::empty());
    while attribute_starts(tokens, found.next)
        invariant
            models == token_models(tokens@),
            pos <= found.next <= tokens.len(),
            attributes(models, pos as int) == attributes_from(models, found.next as int, found@),
        decreases tokens.len() - found.next,
    {
        let at = found.next;
        let ghost before = found@;
        match &tokens[at + 1] {
            Token::Group(brackets, inner) => {
                proof {
                    lemma_group_model(*brackets, *inner);
                }
                if restart_tag(inner) {
                    let mut tag = found.tag;
                    if tag.is_none() {
                        try_set_attribute(&mut tag, ConspiracyAttribute::Restart);
                        found.tag = tag;
                    } else {
                        found.repeated = true;
                    }
                    assert(found.tag == Some(ConspiracyAttribute::Restart)) by {
                        match found.tag {
                            Some(ConspiracyAttribute::Restart) => {},
                            None => {},
                        }
                    }
                } else {
                    let mut text = String::new();
                    push_char(&mut text, '#');
                    write_token(&tokens[at + 1], &mut text);
                    assert(text@ =~= attribute_text(models[at + 1]));
                    found.passthrough.push(text);
                    assert(texts(found.passthrough@) =~= before.passthrough.push(
                        attribute_text(models[at + 1]),
                    ));
                }
            },
            _ => {},
        }
        found.next = at + 2;
    }
    found
}

/// The visibility that starts at `pos`, as text, and the position after it.
pub fn parse_visibility(tokens: &Vec<Token>, pos: usize) -> (found: (String, usize))
    requires
        pos <= tokens.len(),
    ensures
        (found.0@, found.1 as int) == visibility(token_models(tokens@), pos as int),
        pos <= found.1 <= tokens.len(),
{
    if pos < tokens.len() && token_is_word(&tokens[pos], "pub") {
        let mut text = String::from_str("pub");
        if pos + 1 < tokens.len() {
            match &tokens[pos + 1] {
                Token::Group(brackets, inner) => {
                    proof {
                        lemma_group_model(*brackets, *inner);
                    }
                    match brackets {
                        Brackets::Parenthesis => {
                            write_token(&tokens[pos + 1], &mut text);
                            return (text, pos + 2);
                        },
                        _ => {},
                    }
                },
                _ => {},
            }
        }
        (text, pos + 1)
    } else {
        (String::new(), pos)
    }
}

/// Whether what starts at `pos` is a nested node.
pub fn starts_node(tokens: &Vec<Token>, pos: usize) -> (found: bool)
    requires
        pos <= tokens.len(),
    ensures
        found == node_starts(token_models(tokens@), pos as int),
{
    let attributes = extract_conspiracy_attributes(tokens, pos);
    let (_, after) = parse_visibility(tokens, attributes.next);
    after < tokens.len() && token_is_word(&tokens[after], "struct")
}

/// The end of the type that starts at `start`.
pub fn find_type_end(tokens: &Vec<Token>, start: usize) -> (end: usize)
    requires
        start <= tokens.len(),
    ensures
        end as int == type_end(token_models(tokens@), start as int, 0),
        start <= end <= tokens.len(),
{
    let ghost models = token_models(tokens@);
    let mut at: usize = start;
    let mut depth: usize = 0;
    while at < tokens.len()
        invariant
            models == token_models(tokens@),
            start <= at <= tokens.len(),
            depth <= at,
            type_end(models, start as int, 0) == type_end(models, at as int, depth as nat),
        decreases tokens.len() - at,
    {
        if token_is_mark(&tokens[at], ',') && depth == 0 {
            return at;
        }
        if token_is_mark(&tokens[at], '<') {
            depth = depth + 1;
        } else if token_is_mark(&tokens[at], '>') && depth > 0 {
            let arrow = at > 0 && match &tokens[at - 1] {
                Token::Punct(mark, joint) => *joint && (*mark == '-' || *mark == '='),
                _ => false,
            };
            assert(arrow == closes_arrow(models, at as int));
            if !arrow {
                depth = depth - 1;
            }
        }
        at += 1;
    }
    at
}

/// The text of the tokens from `start` up to `end`.
pub fn render_range(tokens: &Vec<Token>, start: usize, end: usize) -> (text: String)
    requires
        start <= end <= tokens.len(),
    ensures
        text@ == render(token_models(tokens@).subrange(start as int, end as int)),
{
    let ghost part = token_models(tokens@).subrange(start as int, end as int);
    let mut text = String::new();
    let mut at: usize = start;
    assert(text@ =~= tokens_text(part, 0));
    while at < end
        invariant
            start <= at <= end <= tokens.len(),
            part == token_models(tokens@).subrange(start as int, end as int),
            text@ == tokens_text(part, (at - start) as nat),
        decreases end - at,
    {
        let ghost before = text@;
        write_token(&tokens[at], &mut text);
        let joint = match &tokens[at] {
            Token::Punct(_, joint) => *joint,
            _ => false,
        };
        if !joint {
            push_char(&mut text, ' ');
        }
        assert(part[at - start] == tokens[at as int]@);
        assert(text@ =~= before + token_text(part[at - start]) + spacing_after(part[at - start]));
        at += 1;
    }
    text
}

/// The tag on each of the fields.
pub fn tag_fields(fields: Vec<SchemaField>) -> (tagged: Vec<SchemaField>)
    ensures
        field_models(tagged@) == tag_all(field_models(fields@)),
{
    let mut tagged: Vec<SchemaField> = Vec::new();
    let mut rest = fields;
    let ghost all = field_models(rest@);
    let ghost count = rest.len();
    while rest.len() > 0
        invariant
            count == all.len(),
            tagged.len() + rest.len() == count,
            forall|i: int|
                0 <= i < tagged.len() ==> (#[trigger] tagged[i]).model() == (FieldModel {
                    restart: true,
                    ..all[i]
                }),
            forall|i: int|
                0 <= i < rest.len() ==> (#[trigger] rest[i]).model() == all[tagged.len() + i],
        decreases rest.len(),
    {
        let ghost before = rest@;
        let mut field = rest.remove(0);
        assert(field == before[0]);
        assert forall|i: int| 0 <= i < rest.len() implies (#[trigger] rest[i]).model() == all[tagged.len()
            + 1 + i] by {
            assert(rest[i] == before[i + 1]);
        }
        field.restart = true;
        tagged.push(field);
    }
    assert(field_models(tagged@) =~= tag_all(all));
    tagged
}

/// The node that starts at `pos`, with the position after it.
pub fn read_node(tokens: &Vec<Token>, pos: usize) -> (parsed: Result<(SchemaNode, usize), ParseFault>)
    requires
        pos <= tokens.len(),
    ensures
        match parse_node(token_models(tokens@), pos as int) {
            Ok((node, next)) => parsed matches Ok((found, after)) && found@ == node && after == next
                && pos < after <= tokens.len(),
            Err(fault) => parsed == Err::<(SchemaNode, usize), ParseFault>(fault),
        },
    decreases tokens, tokens.len() - pos, 1nat,
{
    let ghost models = token_models(tokens@);
    let attributes = extract_conspiracy_attributes(tokens, pos);
    let (visibility, at) = parse_visibility(tokens, attributes.next);
    if attributes.repeated {
        return Err(ParseFault::RepeatedTag);
    }
    if !(at < tokens.len() && token_is_word(&tokens[at], "struct")) {
        return Err(ParseFault::ExpectedKeyword);
    }
    if !(at + 1 < tokens.len()) {
        return Err(ParseFault::ExpectedName);
    }
    let ident = match &tokens[at + 1] {
        Token::Ident(text) => text.clone(),
        _ => {
            return Err(ParseFault::ExpectedName);
        },
    };
    if !(at + 2 < tokens.len()) {
        return Err(ParseFault::ExpectedBody);
    }
    match &tokens[at + 2] {
        Token::Group(brackets, body) => {
            proof {
                lemma_group_model(*brackets, *body);
            }
            match brackets {
                Brackets::Brace => {
                    let fields = match read_fields(body) {
                        Ok(fields) => fields,
                        Err(fault) => {
                            return Err(fault);
                        },
                    };
                    let fields = if attributes.tag.is_some() {
                        tag_fields(fields)
                    } else {
                        fields
                    };
                    let node = SchemaNode {
                        ident,
                        annotations: attributes.passthrough,
                        visibility,
                        fields,
                    };
                    assert(node@.fields =~= field_models(node.fields@));
                    Ok((node, at + 3))
                },
                _ => Err(ParseFault::ExpectedBody),
            }
        },
        _ => Err(ParseFault::ExpectedBody),
    }
}

/// The field that starts at `pos`, with the position after it.
pub fn read_field(tokens: &Vec<Token>, pos: usize) -> (parsed: Result<
    (SchemaField, usize),
    ParseFault,
>)
    requires
        pos < tokens.len(),
    ensures
        match parse_field(token_models(tokens@), pos as int) {
            Ok((field, next)) => parsed matches Ok((found, after)) && found.model() == field
                && after == next && pos < after <= tokens.len(),
            Err(fault) => parsed == Err::<(SchemaField, usize), ParseFault>(fault),
        },
    decreases tokens, tokens.len() - pos, 2nat,
{
    let ghost models = token_models(tokens@);
    let attributes = extract_conspiracy_attributes(tokens, pos);
    let (visibility, at) = parse_visibility(tokens, attributes.next);
    if attributes.repeated {
        return Err(ParseFault::RepeatedTag);
    }
    if !(at < tokens.len()) {
        return Err(ParseFault::ExpectedName);
    }
    let name = match &tokens[at] {
        Token::Ident(text) => text.clone(),
        _ => {
            return Err(ParseFault::ExpectedName);
        },
    };
    if !(at + 1 < tokens.len() && token_is_mark(&tokens[at + 1], ':')) {
        return Err(ParseFault::ExpectedColon);
    }
    let restart = attributes.tag.is_some();
    if starts_node(tokens, at + 2) {
        match read_node(tokens, at + 2) {
            Ok((node, next)) => Ok(
                (
                    SchemaField {
                        name,
                        annotations: attributes.passthrough,
                        visibility,
                        restart,
                        kind: FieldKind::Nested(node),
                    },
                    next,
                ),
            ),
            Err(fault) => Err(fault),
        }
    } else {
        let end = find_type_end(tokens, at + 2);
        if !(at + 2 < end) {
            return Err(ParseFault::ExpectedType);
        }
        let ty = render_range(tokens, at + 2, end);
        Ok(
            (
                SchemaField {
                    name,
                    annotations: attributes.passthrough,
                    visibility,
                    restart,
                    kind: FieldKind::Leaf(ty),
                },
                end,
            ),
        )
    }
}

/// The fields that the tokens hold, from the first to the last.
pub fn read_fields(tokens: &Vec<Token>) -> (parsed: Result<Vec<SchemaField>, ParseFault>)
    ensures
        match parse_fields(token_models(tokens@), 0, Seq::empty()) {
            Ok(fields) => parsed matches Ok(found) && field_models(found@) == fields,
            Err(fault) => parsed == Err::<Vec<SchemaField>, ParseFault>(fault),
        },
    decreases tokens, tokens.len() + 1, 3nat,
{
    let ghost models = token_models(tokens@);
    let mut fields: Vec<SchemaField> = Vec::new();
    let mut pos: usize = 0;
    assert(field_models(fields@) =~= Seq::<FieldModel>::empty());
    while pos < tokens.len()
        invariant
            models == token_models(tokens@),
            pos <= tokens.len(),
            parse_fields(models, 0, Seq::empty()) == parse_fields(
                models,
                pos as int,
                field_models(fields@),
            ),
        decreases tokens.len() - pos,
    {
        let ghost seen = field_models(fields@);
        match read_field(tokens, pos) {
            Err(fault) => {
                return Err(fault);
            },
            Ok((field, next)) => {
                let ghost model = field.model();
                fields.push(field);
                assert(field_models(fields@) =~= seen.push(model));
                if next >= tokens.len() {
                    return Ok(fields);
                }
                if !token_is_mark(&tokens[next], ',') {
                    return Err(ParseFault::ExpectedComma);
                }
                pos = next + 1;
            },
        }
    }
    Ok(fields)
}

/// The node that the tokens declare: one node and nothing after it.
pub fn parse_config(tokens: &Vec<Token>) -> (parsed: Result<SchemaNode, ParseFault>)
    ensures
        match parse_declaration(token_models(tokens@)) {
            Ok(node) => parsed matches Ok(found) && found@ == node,
            Err(fault) => parsed == Err::<SchemaNode, ParseFault>(fault),
        },
{
    match read_node(tokens, 0) {
        Err(fault) => Err(fault),
        Ok((node, next)) => if next == tokens.len() {
            Ok(node)
        } else {
            Err(ParseFault::TrailingTokens)
        },
    }
}

} // verus!

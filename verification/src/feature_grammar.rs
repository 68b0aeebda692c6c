//! The grammar of a feature declaration, over tokens.
//!
//! ```text
//! features := visibility? `enum` NAME `{` ( feature ( `,` feature )* `,`? )? `}`
//! feature  := attribute* NAME `=>` ( `true` | `false` )
//! ```
//!
//! Of a feature's attributes only `#[conspiracy(restart)]` means anything:
//! it tags the feature as triggering a restart. Whether a name is an
//! identifier is asked of syn afterwards.
use crate::features::decl_models;
use crate::features::FeatureDecl;
use crate::features::FeatureDeclModel;
use crate::features::FeatureSchema;
use crate::features::FeatureSchemaModel;
use crate::grammar::attributes;
use crate::grammar::is_mark;
use crate::grammar::is_word;
use crate::grammar::extract_conspiracy_attributes;
use crate::grammar::parse_visibility;
use crate::grammar::token_is_mark;
use crate::grammar::token_is_word;
use crate::grammar::visibility;
use crate::schema::ParseFault;
use crate::tokens::lemma_group_model;
use crate::tokens::token_models;
use crate::tokens::Brackets;
use crate::tokens::Token;
use crate::tokens::TokenModel;
use vstd::prelude::*;

verus! {

/// Whether the arrow `=>` stands at `pos`.
pub open spec fn arrow_at(tokens: Seq<TokenModel>, pos: int) -> bool {
    &&& 0 <= pos
    &&& pos + 1 < tokens.len()
    &&& tokens[pos] == TokenModel::Punct('=', true)
    &&& is_mark(tokens[pos + 1], '>')
}

/// The feature that starts at `pos`, with the position after it.
pub open spec fn parse_feature(tokens: Seq<TokenModel>, pos: int) -> Result<
    (FeatureDeclModel, int),
    ParseFault,
> {
    let found = attributes(tokens, pos);
    let at = found.next;
    if found.repeated {
        Err(ParseFault::RepeatedTag)
    } else if !(0 <= at < tokens.len() && tokens[at] is Ident) {
        Err(ParseFault::ExpectedName)
    } else if !arrow_at(tokens, at + 1) {
        Err(ParseFault::ExpectedArrow)
    } else if !(at + 3 < tokens.len() && (is_word(tokens[at + 3], "true"@) || is_word(
        tokens[at + 3],
        "false"@,
    ))) {
        Err(ParseFault::ExpectedDefault)
    } else {
        Ok(
            (
                FeatureDeclModel {
                    name: tokens[at]->Ident_0,
                    default: is_word(tokens[at + 3], "true"@),
                    restart: found.tag is Some,
                },
                at + 4,
            ),
        )
    }
}

/// The features from `pos` to the end of the tokens, after those of
/// `seen`.
pub open spec fn parse_feature_list(
    tokens: Seq<TokenModel>,
    pos: int,
    seen: Seq<FeatureDeclModel>,
) -> Result<Seq<FeatureDeclModel>, ParseFault>
    decreases tokens.len() - pos,
{
    if pos < 0 || pos >= tokens.len() {
        Ok(seen)
    } else {
        match parse_feature(tokens, pos) {
            Err(fault) => Err(fault),
            Ok((feature, next)) => if next >= tokens.len() {
                Ok(seen.push(feature))
            } else if pos < next && is_mark(tokens[next], ',') {
                parse_feature_list(tokens, next + 1, seen.push(feature))
            } else {
                Err(ParseFault::ExpectedComma)
            },
        }
    }
}

/// The feature schema that the tokens declare.
pub open spec fn parse_features(tokens: Seq<TokenModel>) -> Result<FeatureSchemaModel, ParseFault> {
    let (shown, at) = visibility(tokens, 0);
    if !(0 <= at < tokens.len() && is_word(tokens[at], "enum"@)) {
        Err(ParseFault::ExpectedKeyword)
    } else if !(at + 1 < tokens.len() && tokens[at + 1] is Ident) {
        Err(ParseFault::ExpectedName)
    } else if !(at + 2 < tokens.len() && tokens[at + 2] matches TokenModel::Group(
        Brackets::Brace,
        _,
    )) {
        Err(ParseFault::ExpectedBody)
    } else if at + 3 != tokens.len() {
        Err(ParseFault::TrailingTokens)
    } else {
        match parse_feature_list(tokens[at + 2]->Group_1, 0, Seq::empty()) {
            Err(fault) => Err(fault),
            Ok(features) => Ok(
                FeatureSchemaModel {
                    visibility: shown,
                    name: tokens[at + 1]->Ident_0,
                    features,
                },
            ),
        }
    }
}

/// The feature that starts at `pos`, with the position after it.
pub fn read_feature(tokens: &Vec<Token>, pos: usize) -> (parsed: Result<
    (FeatureDecl, usize),
    ParseFault,
>)
    requires
        pos < tokens.len(),
    ensures
        match parse_feature(token_models(tokens@), pos as int) {
            Ok((feature, next)) => parsed matches Ok((found, after)) && found@ == feature && after
                == next && pos < after <= tokens.len(),
            Err(fault) => parsed == Err::<(FeatureDecl, usize), ParseFault>(fault),
        },
{
    let found = extract_conspiracy_attributes(tokens, pos);
    let at = found.next;
    if found.repeated {
        return Err(ParseFault::RepeatedTag);
    }
    if !(at < tokens.len()) {
        return Err(ParseFault::ExpectedName);
    }
    let name = match &tokens[at] {
        Token::Ident(text) => text.clone(),
        _ => {
            return Err(ParseFault::ExpectedName);
        },
    };
    if !(at + 1 < tokens.len() && at + 2 < tokens.len()) {
        return Err(ParseFault::ExpectedArrow);
    }
    let arrow = match &tokens[at + 1] {
        Token::Punct(mark, joint) => *mark == '=' && *joint,
        _ => false,
    } && token_is_mark(&tokens[at + 2], '>');
    if !arrow {
        return Err(ParseFault::ExpectedArrow);
    }
    if !(at + 3 < tokens.len()) {
        return Err(ParseFault::ExpectedDefault);
    }
    let on = token_is_word(&tokens[at + 3], "true");
    let off = token_is_word(&tokens[at + 3], "false");
    if !(on || off) {
        return Err(ParseFault::ExpectedDefault);
    }
    Ok((FeatureDecl { name, default: on, restart: found.tag.is_some() }, at + 4))
}

/// The features that the tokens hold, from the first to the last.
pub fn read_feature_list(tokens: &Vec<Token>) -> (parsed: Result<Vec<FeatureDecl>, ParseFault>)
    ensures
        match parse_feature_list(token_models(tokens@), 0, Seq::empty()) {
            Ok(features) => parsed matches Ok(found) && decl_models(found@) == features,
            Err(fault) => parsed == Err::<Vec<FeatureDecl>, ParseFault>(fault),
        },
{
    let ghost models = token_models(tokens@);
    let mut features: Vec<FeatureDecl> = Vec::new();
    let mut pos: usize = 0;
    assert(decl_models(features@) =~= Seq::<FeatureDeclModel>::empty());
    while pos < tokens.len()
        invariant
            models == token_models(tokens@),
            pos <= tokens.len(),
            parse_feature_list(models, 0, Seq::empty()) == parse_feature_list(
                models,
                pos as int,
                decl_models(features@),
            ),
        decreases tokens.len() - pos,
    {
        let ghost seen = decl_models(features@);
        match read_feature(tokens, pos) {
            Err(fault) => {
                return Err(fault);
            },
            Ok((feature, next)) => {
                let ghost model = feature@;
                features.push(feature);
                assert(decl_models(features@) =~= seen.push(model));
                if next >= tokens.len() {
                    return Ok(features);
                }
                if !token_is_mark(&tokens[next], ',') {
                    return Err(ParseFault::ExpectedComma);
                }
                pos = next + 1;
            },
        }
    }
    Ok(features)
}

/// The feature schema that the tokens declare.
pub fn parse_feature_schema(tokens: &Vec<Token>) -> (parsed: Result<FeatureSchema, ParseFault>)
    ensures
        match parse_features(token_models(tokens@)) {
            Ok(schema) => parsed matches Ok(found) && found@ == schema,
            Err(fault) => parsed == Err::<FeatureSchema, ParseFault>(fault),
        },
{
    let (visibility, at) = parse_visibility(tokens, 0);
    if !(at < tokens.len() && token_is_word(&tokens[at], "enum")) {
        return Err(ParseFault::ExpectedKeyword);
    }
    if !(at + 1 < tokens.len()) {
        return Err(ParseFault::ExpectedName);
    }
    let name = match &tokens[at + 1] {
        Token::Ident(text) => text.clone(),
        _ => {
            return Err(ParseFault::ExpectedName);
        },
    };
    if !(at + 2 < tokens.len()) {
        return Err(ParseFault::ExpectedBody);
    }
    match &tokens[at + 2] {
        Token::Group(brackets, body) => {
            proof {
                lemma_group_model(*brackets, *body);
            }
            match brackets {
                Brackets::Brace => {
                    if at + 3 != tokens.len() {
                        return Err(ParseFault::TrailingTokens);
                    }
                    match read_feature_list(body) {
                        Ok(features) => Ok(FeatureSchema { visibility, name, features }),
                        Err(fault) => Err(fault),
                    }
                },
                _ => Err(ParseFault::ExpectedBody),
            }
        },
        _ => Err(ParseFault::ExpectedBody),
    }
}

} // verus!

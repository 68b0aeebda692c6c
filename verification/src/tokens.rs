//! The tokens of a declaration: what the lexer of `proc_macro2` makes of a
//! text, as values that the grammar can read.
use proc_macro2::TokenStream;
use proc_macro2::TokenTree;
use std::str::FromStr;
use vstd::prelude::*;
use vstd::string::StringExecFns;

verus! {

/// The brackets around a group of tokens.
#[derive(Clone, Copy, Debug, PartialEq, Eq, Structural)]
pub enum Brackets {
    /// `( ... )`
    Parenthesis,
    /// `{ ... }`
    Brace,
    /// `[ ... ]`
    Bracket,
    /// A group without brackets, as a macro expansion leaves it.
    Invisible,
}

/// A token, or a bracketed group of tokens.
#[derive(Debug)]
pub enum Token {
    /// An identifier or a keyword.
    Ident(String),
    /// One punctuation character, and whether the next character follows
    /// it without a space, as in `::` or `->`.
    Punct(char, bool),
    /// A literal, as it was written.
    Literal(String),
    /// A group with what stands between its brackets.
    Group(Brackets, Vec<Token>),
}

/// A token with its texts as sequences of characters.
pub enum TokenModel {
    Ident(Seq<char>),
    Punct(char, bool),
    Literal(Seq<char>),
    Group(Brackets, Seq<TokenModel>),
}

impl Token {
    /// The token with its texts as sequences of characters.
    pub open spec fn model(self) -> TokenModel
        decreases self,
    {
        match self {
            Token::Ident(text) => TokenModel::Ident(text@),
            Token::Punct(mark, joint) => TokenModel::Punct(mark, joint),
            Token::Literal(text) => TokenModel::Literal(text@),
            Token::Group(delimiter, inner) => TokenModel::Group(
                delimiter,
                Seq::new(
                    inner.len() as nat,
                    |i: int|
                        if 0 <= i < inner.len() {
                            inner[i].model()
                        } else {
                            TokenModel::Punct(' ', false)
                        },
                ),
            ),
        }
    }
}

impl View for Token {
    type V = TokenModel;

    open spec fn view(&self) -> TokenModel {
        self.model()
    }
}

/// The views of a sequence of tokens.
pub open spec fn token_models(tokens: Seq<Token>) -> Seq<TokenModel> {
    Seq::new(tokens.len(), |i: int| tokens[i].model())
}

/// The view of a group, token by token.
pub proof fn lemma_group_model(delimiter: Brackets, inner: Vec<Token>)
    ensures
        Token::Group(delimiter, inner).model() == TokenModel::Group(
            delimiter,
            token_models(inner@),
        ),
{
    assert(Token::Group(delimiter, inner).model()->Group_1 =~= token_models(inner@));
}

/// `proc_macro2::TokenStream`, carried from the lexer to the conversion.
#[verifier::external_type_specification]
#[verifier::external_body]
pub struct ExTokenStream(TokenStream);

/// The iteration over a `TokenStream` of `proc_macro2`, each token tree as
/// a value of this library: an identifier and a literal by their text, a
/// punctuation mark by its character and spacing, a group by its delimiter
/// and its tokens. Nothing is claimed of the result.
#[verifier::external_body]
fn token_trees(stream: TokenStream) -> Vec<Token> {
    let mut tokens = Vec::new();
    for tree in stream {
        tokens.push(
            match tree {
                TokenTree::Ident(ident) => Token::Ident(ident.to_string()),
                TokenTree::Punct(p) => Token::Punct(p.as_char(), p.spacing() == proc_macro2::Spacing::Joint),
                TokenTree::Literal(literal) => Token::Literal(literal.to_string()),
                TokenTree::Group(g) => Token::Group(brackets_of(g.delimiter()), token_trees(g.stream())),
            },
        );
    }
    tokens
}

/// A `Delimiter` of `proc_macro2` as the brackets of this library, variant
/// by variant. Nothing is claimed of the result.
#[verifier::external_body]
fn brackets_of(delimiter: proc_macro2::Delimiter) -> Brackets {
    match delimiter {
        proc_macro2::Delimiter::Parenthesis => Brackets::Parenthesis,
        proc_macro2::Delimiter::Brace => Brackets::Brace,
        proc_macro2::Delimiter::Bracket => Brackets::Bracket,
        proc_macro2::Delimiter::None => Brackets::Invisible,
    }
}

/// `proc_macro2::Delimiter`, carried from a group to the conversion.
#[verifier::external_type_specification]
#[verifier::external_body]
pub struct ExDelimiter(proc_macro2::Delimiter);

/// `TokenStream::from_str` of `proc_macro2`: the tokens of the text, or
/// nothing where the text cannot be lexed (an unbalanced bracket, an
/// unterminated literal). Inside a macro process the compiler's lexer does
/// the work, elsewhere that of `proc_macro2`, and a flag of the process
/// chooses between them: nothing is claimed of the result.
#[verifier::external_body]
fn lex(text: &str) -> Option<Vec<Token>> {
    match TokenStream::from_str(text) {
        Ok(stream) => Some(token_trees(stream)),
        Err(_) => None,
    }
}

/// `String::push`: the character is appended to the text.
#[verifier::external_body]
pub(crate) fn push_char(text: &mut String, mark: char)
    ensures
        final(text)@ == old(text)@.push(mark),
{
    text.push(mark)
}

/// The tokens of a text, as the lexer of the process gives them; `None`
/// where it refuses the text. What follows the lexer takes the tokens as
/// an argument.
pub fn tokenize(text: &str) -> Option<Vec<Token>> {
    lex(text)
}

/// The opening bracket of a delimiter.
pub open spec fn opening(delimiter: Brackets) -> Seq<char> {
    match delimiter {
        Brackets::Parenthesis => seq!['('],
        Brackets::Brace => seq!['{'],
        Brackets::Bracket => seq!['['],
        Brackets::Invisible => Seq::empty(),
    }
}

/// The closing bracket of a delimiter.
pub open spec fn closing(delimiter: Brackets) -> Seq<char> {
    match delimiter {
        Brackets::Parenthesis => seq![')'],
        Brackets::Brace => seq!['}'],
        Brackets::Bracket => seq![']'],
        Brackets::Invisible => Seq::empty(),
    }
}

/// The text of one token. A group is written with its brackets around the
/// text of its tokens.
pub open spec fn token_text(token: TokenModel) -> Seq<char>
    decreases token, 0nat,
{
    match token {
        TokenModel::Ident(text) => text,
        TokenModel::Punct(mark, _) => seq![mark],
        TokenModel::Literal(text) => text,
        TokenModel::Group(delimiter, inner) => opening(delimiter) + tokens_text(
            inner,
            inner.len(),
        ) + closing(delimiter),
    }
}

/// The text of the first `upto` tokens: each token is followed by a
/// space, but for a punctuation mark that the next character joins.
pub open spec fn tokens_text(tokens: Seq<TokenModel>, upto: nat) -> Seq<char>
    decreases tokens, upto,
{
    if upto == 0 || upto > tokens.len() {
        Seq::empty()
    } else {
        tokens_text(tokens, (upto - 1) as nat) + token_text(tokens[upto - 1]) + spacing_after(
            tokens[upto - 1],
        )
    }
}

/// What is written between a token and the next.
pub open spec fn spacing_after(token: TokenModel) -> Seq<char> {
    match token {
        TokenModel::Punct(_, true) => Seq::empty(),
        _ => seq![' '],
    }
}

/// The text of a sequence of tokens.
pub open spec fn render(tokens: Seq<TokenModel>) -> Seq<char> {
    tokens_text(tokens, tokens.len())
}

/// Append the text of a token.
pub fn write_token(token: &Token, out: &mut String)
    ensures
        final(out)@ == old(out)@ + token_text(token@),
    decreases token, 0nat,
{
    match token {
        Token::Ident(text) => {
            out.append(text.as_str());
        },
        Token::Punct(mark, _) => {
            push_char(out, *mark);
            assert(out@ =~= old(out)@ + seq![*mark]);
        },
        Token::Literal(text) => {
            out.append(text.as_str());
        },
        Token::Group(delimiter, inner) => {
            proof {
                lemma_group_model(*delimiter, *inner);
            }
            match delimiter {
                Brackets::Parenthesis => push_char(out, '('),
                Brackets::Brace => push_char(out, '{'),
                Brackets::Bracket => push_char(out, '['),
                Brackets::Invisible => {},
            }
            assert(out@ =~= old(out)@ + opening(*delimiter));
            write_tokens(inner, out);
            let ghost middle = out@;
            match delimiter {
                Brackets::Parenthesis => push_char(out, ')'),
                Brackets::Brace => push_char(out, '}'),
                Brackets::Bracket => push_char(out, ']'),
                Brackets::Invisible => {},
            }
            assert(out@ =~= middle + closing(*delimiter));
            assert(out@ =~= old(out)@ + token_text(token@));
        },
    }
}

/// Append the text of a sequence of tokens.
pub fn write_tokens(tokens: &Vec<Token>, out: &mut String)
    ensures
        final(out)@ == old(out)@ + render(token_models(tokens@)),
    decreases tokens, tokens.len() + 1,
{
    let ghost models = token_models(tokens@);
    let mut at: usize = 0;
    assert(out@ =~= old(out)@ + tokens_text(models, 0));
    while at < tokens.len()
        invariant
            at <= tokens.len(),
            models == token_models(tokens@),
            out@ == old(out)@ + tokens_text(models, at as nat),
        decreases tokens.len() - at,
    {
        let ghost before = out@;
        write_token(&tokens[at], out);
        let joint = match &tokens[at] {
            Token::Punct(_, joint) => *joint,
            _ => false,
        };
        if !joint {
            push_char(out, ' ');
        }
        assert(out@ =~= before + token_text(models[at as int]) + spacing_after(models[at as int]));
        assert(out@ =~= old(out)@ + tokens_text(models, (at + 1) as nat));
        at += 1;
    }
}

/// The text of a sequence of tokens.
pub fn render_tokens(tokens: &Vec<Token>) -> (text: String)
    ensures
        text@ == render(token_models(tokens@)),
{
    let mut text = String::new();
    write_tokens(tokens, &mut text);
    assert(text@ =~= render(token_models(tokens@)));
    text
}

} // verus!

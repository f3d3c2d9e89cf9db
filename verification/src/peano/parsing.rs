//! The parser of the surface syntax: operators in front, each operand in
//! parentheses.

use crate::axioms::{AxiomError, NamedAxiom};
use crate::nodes::HashNode;
use crate::peano::lexing::{spec_offsets, spec_tokens, tokenize, tokenize_with_offsets, Token};
use crate::peano::syntax::{PeanoArithmeticExpression, PeanoDomainExpression, PeanoLogicalNode};
use crate::peano::{
    all, both, either, entails, eq, iff, negation, num, plus, some, succ, var, PeanoStores,
};
use crate::text::{decimal, decimal_text};
use vstd::prelude::*;
use vstd::string::StringExecFns;

verus! {

/// Why a text is no formula.
#[derive(Debug, Clone, Copy)]
pub enum ParseFailure {
    /// The text ends where a formula should start.
    EndOfProposition,
    /// A token that starts no formula.
    TokenOfProposition(Token),
    /// The text ends where a term should start.
    EndOfExpression,
    /// A token that starts no term.
    TokenOfExpression(Token),
    /// The first token was expected and the second, or the end of the text,
    /// was found.
    Expected(Token, Option<Token>),
}

/// A token as text: its name, with the number in parentheses where it
/// carries one.
pub open spec fn token_text(token: Token) -> Seq<char> {
    match token {
        Token::LParen => "LParen"@,
        Token::RParen => "RParen"@,
        Token::And => "And"@,
        Token::Or => "Or"@,
        Token::Implies => "Implies"@,
        Token::Iff => "Iff"@,
        Token::Not => "Not"@,
        Token::Forall => "Forall"@,
        Token::Exists => "Exists"@,
        Token::Eq => "Eq"@,
        Token::Plus => "Plus"@,
        Token::Successor => "Successor"@,
        Token::Number(n) => "Number("@ + decimal_text(n as nat) + ")"@,
        Token::DeBruijn(index) => "DeBruijn("@ + decimal_text(index as nat) + ")"@,
    }
}

/// A token as text.
pub fn token_to_string(token: Token) -> (text: String)
    ensures
        text@ == token_text(token),
{
    match token {
        Token::LParen => "LParen".to_owned(),
        Token::RParen => "RParen".to_owned(),
        Token::And => "And".to_owned(),
        Token::Or => "Or".to_owned(),
        Token::Implies => "Implies".to_owned(),
        Token::Iff => "Iff".to_owned(),
        Token::Not => "Not".to_owned(),
        Token::Forall => "Forall".to_owned(),
        Token::Exists => "Exists".to_owned(),
        Token::Eq => "Eq".to_owned(),
        Token::Plus => "Plus".to_owned(),
        Token::Successor => "Successor".to_owned(),
        Token::Number(n) => "Number(".to_owned().concat(decimal(n).as_str()).concat(")"),
        Token::DeBruijn(index) => "DeBruijn(".to_owned().concat(
            decimal(index as u64).as_str(),
        ).concat(")"),
    }
}

/// The token at a place, if the place holds one.
pub open spec fn spec_token_at(tokens: Seq<Token>, pos: int) -> Option<Token> {
    if 0 <= pos < tokens.len() {
        Some(tokens[pos])
    } else {
        None
    }
}

/// The token at a place, if the place holds one.
pub fn token_at(tokens: &Vec<Token>, pos: usize) -> (found: Option<Token>)
    ensures
        found == spec_token_at(tokens@, pos as int),
{
    if pos < tokens.len() {
        Some(tokens[pos])
    } else {
        None
    }
}

impl ParseFailure {
    /// The message of a failure: what was expected and what was found.
    pub open spec fn spec_message(self) -> Seq<char> {
        match self {
            ParseFailure::EndOfProposition => "Unexpected EOF expecting Proposition"@,
            ParseFailure::TokenOfProposition(found) => "Unexpected token "@ + token_text(found)
                + " for start of Proposition"@,
            ParseFailure::EndOfExpression => "Unexpected EOF expecting Expression"@,
            ParseFailure::TokenOfExpression(found) => "Unexpected token "@ + token_text(found)
                + " for start of Expression"@,
            ParseFailure::Expected(expected, found) => "Expected "@ + token_text(expected)
                + ", found "@ + (match found {
                Some(token) => token_text(token),
                None => "EOF"@,
            }),
        }
    }

    pub fn message(self) -> (text: String)
        ensures
            text@ == self.spec_message(),
    {
        match self {
            ParseFailure::EndOfProposition => "Unexpected EOF expecting Proposition".to_owned(),
            ParseFailure::TokenOfProposition(found) => "Unexpected token ".to_owned().concat(
                token_to_string(found).as_str(),
            ).concat(" for start of Proposition"),
            ParseFailure::EndOfExpression => "Unexpected EOF expecting Expression".to_owned(),
            ParseFailure::TokenOfExpression(found) => "Unexpected token ".to_owned().concat(
                token_to_string(found).as_str(),
            ).concat(" for start of Expression"),
            ParseFailure::Expected(expected, found) => {
                let head = "Expected ".to_owned().concat(token_to_string(expected).as_str()).concat(
                    ", found ",
                );
                match found {
                    Some(token) => head.concat(token_to_string(token).as_str()),
                    None => head.concat("EOF"),
                }
            },
        }
    }
}

/// The term that starts at token `pos`, and the place behind it; or why
/// there is none, and where.
pub open spec fn spec_parse_expression(tokens: Seq<Token>, pos: int) -> Result<
    (HashNode<PeanoArithmeticExpression>, int),
    (ParseFailure, int),
>
    decreases tokens.len() - pos, 0nat,
{
    if pos < 0 || pos >= tokens.len() {
        Err((ParseFailure::EndOfExpression, pos))
    } else {
        match tokens[pos] {
            Token::Plus => match spec_parse_expression_operand(tokens, pos + 1) {
                Err(failure) => Err(failure),
                Ok((left, after_left)) => if after_left <= pos || after_left > tokens.len() {
                    Err((ParseFailure::EndOfExpression, pos))
                } else {
                    match spec_parse_expression_operand(tokens, after_left) {
                        Err(failure) => Err(failure),
                        Ok((right, after)) => Ok((plus(left, right), after)),
                    }
                },
            },
            Token::Successor => match spec_parse_expression_operand(tokens, pos + 1) {
                Err(failure) => Err(failure),
                Ok((inner, after)) => Ok((succ(inner), after)),
            },
            Token::Number(n) => Ok((num(n), pos + 1)),
            Token::DeBruijn(index) => Ok((var(index), pos + 1)),
            _ => Err((ParseFailure::TokenOfExpression(tokens[pos]), pos)),
        }
    }
}

/// The term in parentheses that starts at token `pos`.
pub open spec fn spec_parse_expression_operand(tokens: Seq<Token>, pos: int) -> Result<
    (HashNode<PeanoArithmeticExpression>, int),
    (ParseFailure, int),
>
    decreases tokens.len() - pos, 1nat,
{
    if pos < 0 || pos >= tokens.len() || tokens[pos] != Token::LParen {
        Err((ParseFailure::Expected(Token::LParen, spec_token_at(tokens, pos)), pos))
    } else {
        match spec_parse_expression(tokens, pos + 1) {
            Err(failure) => Err(failure),
            Ok((inner, after)) => if 0 <= after < tokens.len() && tokens[after] == Token::RParen {
                Ok((inner, after + 1))
            } else {
                Err((ParseFailure::Expected(Token::RParen, spec_token_at(tokens, after)), after))
            },
        }
    }
}

/// The formula that starts at token `pos`, and the place behind it; or why
/// there is none, and where.
pub open spec fn spec_parse_proposition(tokens: Seq<Token>, pos: int) -> Result<
    (PeanoLogicalNode, int),
    (ParseFailure, int),
>
    decreases tokens.len() - pos, 0nat,
{
    if pos < 0 || pos >= tokens.len() {
        Err((ParseFailure::EndOfProposition, pos))
    } else {
        match tokens[pos] {
            Token::And | Token::Or | Token::Implies | Token::Iff => match spec_parse_proposition_operand(
                tokens,
                pos + 1,
            ) {
                Err(failure) => Err(failure),
                Ok((left, after_left)) => if after_left <= pos || after_left > tokens.len() {
                    Err((ParseFailure::EndOfProposition, pos))
                } else {
                    match spec_parse_proposition_operand(tokens, after_left) {
                        Err(failure) => Err(failure),
                        Ok((right, after)) => Ok(
                            (
                                match tokens[pos] {
                                    Token::And => both(left, right),
                                    Token::Or => either(left, right),
                                    Token::Implies => entails(left, right),
                                    _ => iff(left, right),
                                },
                                after,
                            ),
                        ),
                    }
                },
            },
            Token::Not | Token::Forall | Token::Exists => match spec_parse_proposition_operand(
                tokens,
                pos + 1,
            ) {
                Err(failure) => Err(failure),
                Ok((inner, after)) => Ok(
                    (
                        match tokens[pos] {
                            Token::Not => negation(inner),
                            Token::Forall => all(inner),
                            _ => some(inner),
                        },
                        after,
                    ),
                ),
            },
            Token::Eq => match spec_parse_expression_operand(tokens, pos + 1) {
                Err(failure) => Err(failure),
                Ok((left, after_left)) => match spec_parse_expression_operand(tokens, after_left) {
                    Err(failure) => Err(failure),
                    Ok((right, after)) => Ok((eq(left, right), after)),
                },
            },
            _ => Err((ParseFailure::TokenOfProposition(tokens[pos]), pos)),
        }
    }
}

/// The formula in parentheses that starts at token `pos`.
pub open spec fn spec_parse_proposition_operand(tokens: Seq<Token>, pos: int) -> Result<
    (PeanoLogicalNode, int),
    (ParseFailure, int),
>
    decreases tokens.len() - pos, 1nat,
{
    if pos < 0 || pos >= tokens.len() || tokens[pos] != Token::LParen {
        Err((ParseFailure::Expected(Token::LParen, spec_token_at(tokens, pos)), pos))
    } else {
        match spec_parse_proposition(tokens, pos + 1) {
            Err(failure) => Err(failure),
            Ok((inner, after)) => if 0 <= after < tokens.len() && tokens[after] == Token::RParen {
                Ok((inner, after + 1))
            } else {
                Err((ParseFailure::Expected(Token::RParen, spec_token_at(tokens, after)), after))
            },
        }
    }
}

/// The term that starts at token `pos`.
pub fn parse_expression_at(tokens: &Vec<Token>, pos: usize, stores: &mut PeanoStores) -> (parsed:
    Result<(HashNode<PeanoArithmeticExpression>, usize), (ParseFailure, usize)>)
    requires
        pos <= tokens.len(),
    ensures
        match parsed {
            Ok((term, after)) => spec_parse_expression(tokens@, pos as int) == Ok::<
                (HashNode<PeanoArithmeticExpression>, int),
                (ParseFailure, int),
            >((term, after as int)) && pos < after <= tokens.len(),
            Err((failure, at)) => at <= tokens.len() && spec_parse_expression(tokens@, pos as int) == Err::<
                (HashNode<PeanoArithmeticExpression>, int),
                (ParseFailure, int),
            >((failure, at as int)),
        },
        PeanoStores::extends(*old(stores), *final(stores)),
    decreases tokens.len() - pos, 0nat,
{
    let ghost start = *stores;
    proof {
        PeanoStores::lemma_extends(start, start, start);
    }
    if pos >= tokens.len() {
        return Err((ParseFailure::EndOfExpression, pos));
    }
    match tokens[pos] {
        Token::Plus => {
            let (left, after_left) = match parse_expression_operand_at(tokens, pos + 1, stores) {
                Ok(found) => found,
                Err(failure) => {
                    return Err(failure);
                },
            };
            let ghost first = *stores;
            let (right, after) = match parse_expression_operand_at(tokens, after_left, stores) {
                Ok(found) => found,
                Err(failure) => {
                    proof {
                        PeanoStores::lemma_extends(start, first, *stores);
                    }
                    return Err(failure);
                },
            };
            let ghost second = *stores;
            let node = stores.add(left, right);
            proof {
                PeanoStores::lemma_extends(start, first, second);
                PeanoStores::lemma_extends(start, second, *stores);
            }
            Ok((node, after))
        },
        Token::Successor => {
            let (inner, after) = match parse_expression_operand_at(tokens, pos + 1, stores) {
                Ok(found) => found,
                Err(failure) => {
                    return Err(failure);
                },
            };
            let ghost first = *stores;
            let node = stores.successor(inner);
            proof {
                PeanoStores::lemma_extends(start, first, *stores);
            }
            Ok((node, after))
        },
        Token::Number(n) => Ok((stores.number(n), pos + 1)),
        Token::DeBruijn(index) => Ok((stores.variable(index), pos + 1)),
        other => Err((ParseFailure::TokenOfExpression(other), pos)),
    }
}

/// The term in parentheses that starts at token `pos`.
pub fn parse_expression_operand_at(tokens: &Vec<Token>, pos: usize, stores: &mut PeanoStores) -> (parsed:
    Result<(HashNode<PeanoArithmeticExpression>, usize), (ParseFailure, usize)>)
    requires
        pos <= tokens.len(),
    ensures
        match parsed {
            Ok((term, after)) => spec_parse_expression_operand(tokens@, pos as int) == Ok::<
                (HashNode<PeanoArithmeticExpression>, int),
                (ParseFailure, int),
            >((term, after as int)) && pos < after <= tokens.len(),
            Err((failure, at)) => at <= tokens.len() && spec_parse_expression_operand(tokens@, pos as int) == Err::<
                (HashNode<PeanoArithmeticExpression>, int),
                (ParseFailure, int),
            >((failure, at as int)),
        },
        PeanoStores::extends(*old(stores), *final(stores)),
    decreases tokens.len() - pos, 1nat,
{
    proof {
        PeanoStores::lemma_extends(*stores, *stores, *stores);
    }
    if pos >= tokens.len() || tokens[pos] != Token::LParen {
        return Err((ParseFailure::Expected(Token::LParen, token_at(tokens, pos)), pos));
    }
    let (inner, after) = match parse_expression_at(tokens, pos + 1, stores) {
        Ok(found) => found,
        Err(failure) => {
            return Err(failure);
        },
    };
    if after < tokens.len() && tokens[after] == Token::RParen {
        Ok((inner, after + 1))
    } else {
        Err((ParseFailure::Expected(Token::RParen, token_at(tokens, after)), after))
    }
}

/// The formula that starts at token `pos`.
pub fn parse_proposition_at(tokens: &Vec<Token>, pos: usize, stores: &mut PeanoStores) -> (parsed:
    Result<(PeanoLogicalNode, usize), (ParseFailure, usize)>)
    requires
        pos <= tokens.len(),
    ensures
        match parsed {
            Ok((formula, after)) => spec_parse_proposition(tokens@, pos as int) == Ok::<
                (PeanoLogicalNode, int),
                (ParseFailure, int),
            >((formula, after as int)) && pos < after <= tokens.len(),
            Err((failure, at)) => at <= tokens.len() && spec_parse_proposition(tokens@, pos as int) == Err::<
                (PeanoLogicalNode, int),
                (ParseFailure, int),
            >((failure, at as int)),
        },
        PeanoStores::extends(*old(stores), *final(stores)),
    decreases tokens.len() - pos, 0nat,
{
    let ghost start = *stores;
    proof {
        PeanoStores::lemma_extends(start, start, start);
    }
    if pos >= tokens.len() {
        return Err((ParseFailure::EndOfProposition, pos));
    }
    let token = tokens[pos];
    match token {
        Token::And | Token::Or | Token::Implies | Token::Iff => {
            let (left, after_left) = match parse_proposition_operand_at(tokens, pos + 1, stores) {
                Ok(found) => found,
                Err(failure) => {
                    return Err(failure);
                },
            };
            let ghost first = *stores;
            let (right, after) = match parse_proposition_operand_at(tokens, after_left, stores) {
                Ok(found) => found,
                Err(failure) => {
                    proof {
                        PeanoStores::lemma_extends(start, first, *stores);
                    }
                    return Err(failure);
                },
            };
            let ghost second = *stores;
            let node = match token {
                Token::And => stores.and(left, right),
                Token::Or => stores.or(left, right),
                Token::Implies => stores.imply(left, right),
                _ => stores.iff(left, right),
            };
            proof {
                PeanoStores::lemma_extends(start, first, second);
                PeanoStores::lemma_extends(start, second, *stores);
            }
            Ok((node, after))
        },
        Token::Not | Token::Forall | Token::Exists => {
            let (inner, after) = match parse_proposition_operand_at(tokens, pos + 1, stores) {
                Ok(found) => found,
                Err(failure) => {
                    return Err(failure);
                },
            };
            let ghost first = *stores;
            let node = match token {
                Token::Not => stores.not(inner),
                Token::Forall => stores.for_all(inner),
                _ => stores.there_exists(inner),
            };
            proof {
                PeanoStores::lemma_extends(start, first, *stores);
            }
            Ok((node, after))
        },
        Token::Eq => {
            let (left, after_left) = match parse_expression_operand_at(tokens, pos + 1, stores) {
                Ok(found) => found,
                Err(failure) => {
                    return Err(failure);
                },
            };
            let ghost first = *stores;
            let (right, after) = match parse_expression_operand_at(tokens, after_left, stores) {
                Ok(found) => found,
                Err(failure) => {
                    proof {
                        PeanoStores::lemma_extends(start, first, *stores);
                    }
                    return Err(failure);
                },
            };
            let ghost second = *stores;
            let node = stores.equals(left, right);
            proof {
                PeanoStores::lemma_extends(start, first, second);
                PeanoStores::lemma_extends(start, second, *stores);
            }
            Ok((node, after))
        },
        _ => Err((ParseFailure::TokenOfProposition(token), pos)),
    }
}

/// The formula in parentheses that starts at token `pos`.
pub fn parse_proposition_operand_at(tokens: &Vec<Token>, pos: usize, stores: &mut PeanoStores) -> (parsed:
    Result<(PeanoLogicalNode, usize), (ParseFailure, usize)>)
    requires
        pos <= tokens.len(),
    ensures
        match parsed {
            Ok((formula, after)) => spec_parse_proposition_operand(tokens@, pos as int) == Ok::<
                (PeanoLogicalNode, int),
                (ParseFailure, int),
            >((formula, after as int)) && pos < after <= tokens.len(),
            Err((failure, at)) => at <= tokens.len() && spec_parse_proposition_operand(tokens@, pos as int) == Err::<
                (PeanoLogicalNode, int),
                (ParseFailure, int),
            >((failure, at as int)),
        },
        PeanoStores::extends(*old(stores), *final(stores)),
    decreases tokens.len() - pos, 1nat,
{
    proof {
        PeanoStores::lemma_extends(*stores, *stores, *stores);
    }
    if pos >= tokens.len() || tokens[pos] != Token::LParen {
        return Err((ParseFailure::Expected(Token::LParen, token_at(tokens, pos)), pos));
    }
    let (inner, after) = match parse_proposition_at(tokens, pos + 1, stores) {
        Ok(found) => found,
        Err(failure) => {
            return Err(failure);
        },
    };
    if after < tokens.len() && tokens[after] == Token::RParen {
        Ok((inner, after + 1))
    } else {
        Err((ParseFailure::Expected(Token::RParen, token_at(tokens, after)), after))
    }
}

/// A parser: the tokens of a text, a place in them, and the stores that
/// what is parsed is interned in.
pub struct Parser {
    pub tokens: Vec<Token>,
    pub pos: usize,
    pub stores: PeanoStores,
}

impl Parser {
    /// The tokens that are parsed.
    pub open spec fn tokens(&self) -> Seq<Token> {
        self.tokens@
    }

    /// The place of the token that is parsed next.
    pub open spec fn position(&self) -> int {
        self.pos as int
    }

    /// A parser at the first token of a text, with fresh, empty stores.
    pub fn new(input: &str) -> (parser: Self)
        ensures
            parser.tokens() == spec_tokens(input@, 0),
            parser.position() == 0,
            parser.stores.storage.logical_storage@.len() == 0,
            parser.stores.storage.domain_storage.arithmetic_storage@.len() == 0,
            parser.stores.storage.domain_storage.domain_content_storage@.len() == 0,
    {
        Parser { tokens: tokenize(input), pos: 0, stores: PeanoStores::new() }
    }

    /// Parses the formula at the place, and moves the place behind it.
    pub fn parse_proposition(&mut self) -> (parsed: Result<PeanoLogicalNode, String>)
        ensures
            final(self).tokens() == old(self).tokens(),
            match parsed {
                Ok(formula) => spec_parse_proposition(old(self).tokens(), old(self).position())
                    == Ok::<(PeanoLogicalNode, int), (ParseFailure, int)>(
                    (formula, final(self).position()),
                ),
                Err(message) => spec_parse_proposition(
                    old(self).tokens(),
                    old(self).position(),
                ) matches Err((failure, at)) && message@ == failure.spec_message()
                    && final(self).position() == old(self).position(),
            },
            PeanoStores::extends(old(self).stores, final(self).stores),
    {
        if self.pos > self.tokens.len() {
            proof {
                PeanoStores::lemma_extends(self.stores, self.stores, self.stores);
            }
            return Err(ParseFailure::EndOfProposition.message());
        }
        match parse_proposition_at(&self.tokens, self.pos, &mut self.stores) {
            Ok((formula, after)) => {
                self.pos = after;
                Ok(formula)
            },
            Err((failure, _)) => Err(failure.message()),
        }
    }

    /// Parses the term at the place, and moves the place behind it.
    pub fn parse_expression(&mut self) -> (parsed: Result<HashNode<PeanoArithmeticExpression>, String>)
        ensures
            final(self).tokens() == old(self).tokens(),
            match parsed {
                Ok(term) => spec_parse_expression(old(self).tokens(), old(self).position())
                    == Ok::<(HashNode<PeanoArithmeticExpression>, int), (ParseFailure, int)>(
                    (term, final(self).position()),
                ),
                Err(message) => spec_parse_expression(
                    old(self).tokens(),
                    old(self).position(),
                ) matches Err((failure, at)) && message@ == failure.spec_message()
                    && final(self).position() == old(self).position(),
            },
            PeanoStores::extends(old(self).stores, final(self).stores),
    {
        if self.pos > self.tokens.len() {
            proof {
                PeanoStores::lemma_extends(self.stores, self.stores, self.stores);
            }
            return Err(ParseFailure::EndOfExpression.message());
        }
        match parse_expression_at(&self.tokens, self.pos, &mut self.stores) {
            Ok((term, after)) => {
                self.pos = after;
                Ok(term)
            },
            Err((failure, _)) => Err(failure.message()),
        }
    }

    /// Parses the term at the place, as `parse_expression` does: a sum
    /// stands where any term may stand.
    pub fn parse_term(&mut self) -> (parsed: Result<HashNode<PeanoArithmeticExpression>, String>)
        ensures
            final(self).tokens() == old(self).tokens(),
            match parsed {
                Ok(term) => spec_parse_expression(old(self).tokens(), old(self).position())
                    == Ok::<(HashNode<PeanoArithmeticExpression>, int), (ParseFailure, int)>(
                    (term, final(self).position()),
                ),
                Err(message) => spec_parse_expression(
                    old(self).tokens(),
                    old(self).position(),
                ) matches Err((failure, at)) && message@ == failure.spec_message()
                    && final(self).position() == old(self).position(),
            },
            PeanoStores::extends(old(self).stores, final(self).stores),
    {
        self.parse_expression()
    }

    /// How many formulas, terms and statements the stores hold.
    pub fn store_stats(&self) -> (stats: (usize, usize, usize))
        ensures
            stats.0 == self.stores.storage.logical_storage@.len(),
            stats.1 == self.stores.storage.domain_storage.arithmetic_storage@.len(),
            stats.2 == self.stores.storage.domain_storage.domain_content_storage@.len(),
    {
        (
            self.stores.storage.logical_storage.len(),
            self.stores.storage.domain_storage.arithmetic_storage.len(),
            self.stores.storage.domain_storage.domain_content_storage.len(),
        )
    }
}

/// The stores that axioms are parsed into.
pub struct AxiomStores {
    pub stores: PeanoStores,
}

impl AxiomStores {
    /// Fresh, empty stores.
    pub fn new() -> (fresh: Self)
        ensures
            fresh.stores.storage.logical_storage@.len() == 0,
            fresh.stores.storage.domain_storage.arithmetic_storage@.len() == 0,
            fresh.stores.storage.domain_storage.domain_content_storage@.len() == 0,
    {
        AxiomStores { stores: PeanoStores::new() }
    }
}

/// Whether an error reports a failure at token `at` of a text: by the
/// message of the failure and the place in the text where the token
/// starts, or where the reading of tokens stopped.
pub open spec fn reports_failure(
    error: AxiomError,
    failure: ParseFailure,
    at: int,
    input: Seq<char>,
) -> bool {
    &&& 0 <= at < spec_offsets(input, 0).len()
    &&& error matches AxiomError::ParseError { message, position }
    &&& message@ == failure.spec_message()
    &&& position matches Some(offset)
    &&& offset as int == spec_offsets(input, 0)[at]
}

/// Parses a text as a formula. The error carries the message of what went
/// wrong and the place in the text where it did: where the offending token
/// starts, or where the reading of tokens stopped.
pub fn parse_formula(input: &str, stores: &mut PeanoStores) -> (parsed: Result<
    PeanoLogicalNode,
    AxiomError,
>)
    ensures
        match parsed {
            Ok(formula) => spec_parse_proposition(spec_tokens(input@, 0), 0) matches Ok(
                (parsed_formula, after),
            ) && formula == parsed_formula,
            Err(error) => spec_parse_proposition(spec_tokens(input@, 0), 0) matches Err(
                (failure, at),
            ) && reports_failure(error, failure, at, input@),
        },
        PeanoStores::extends(*old(stores), *final(stores)),
{
    let (tokens, offsets) = tokenize_with_offsets(input);
    match parse_proposition_at(&tokens, 0, stores) {
        Ok((formula, _)) => Ok(formula),
        Err((failure, at)) => {
            proof {
                assert(offsets@.map_values(|at: usize| at as int)[at as int] == offsets@[at as int]);
            }
            Err(AxiomError::ParseError { message: failure.message(), position: Some(offsets[at]) })
        },
    }
}

/// Parses a text as an axiom with a name; the error is that of `parse_formula`.
pub fn parse_axiom(input: &str, name: &str, stores: &mut AxiomStores) -> (parsed: Result<
    NamedAxiom<PeanoDomainExpression>,
    AxiomError,
>)
    ensures
        match parsed {
            Ok(named) => spec_parse_proposition(spec_tokens(input@, 0), 0) matches Ok(
                (formula, after),
            ) && named.expression == formula && named.name@ == name@,
            Err(error) => spec_parse_proposition(spec_tokens(input@, 0), 0) matches Err(
                (failure, at),
            ) && reports_failure(error, failure, at, input@),
        },
        PeanoStores::extends(old(stores).stores, final(stores).stores),
{
    match parse_formula(input, &mut stores.stores) {
        Ok(formula) => Ok(NamedAxiom::new(name, formula)),
        Err(error) => Err(error),
    }
}

} // verus!

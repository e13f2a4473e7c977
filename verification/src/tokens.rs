//! The token vocabulary shared by the lexer and the code generator, together
//! with the mathematical models that the contracts speak about.

use vstd::prelude::*;

verus! {

/// A single-character punctuation token.
#[derive(Debug, PartialEq, Eq, Structural, Clone, Copy)]
pub enum SpecialCharacter {
    Equals,
    ExclamationMark,
    Dot,
    Colon,
    Comma,
    Plus,
    Minus,
    Asterisk,
    Slash,
    Percent,
    LargerThan,
    SmallerThan,
    OpenParenthesis,
    CloseParenthesis,
    OpenBracket,
    CloseBracket,
    OpenBrace,
    CloseBrace,
}

/// A reserved word of the source language.
#[derive(Debug, PartialEq, Eq, Structural, Clone, Copy)]
pub enum Keyword {
    Let,
    Const,
    Method,
    Return,
    Import,
    If,
    Else,
    Loop,
    In,
    True,
    False,
    Null,
    Break,
    Continue,
    And,
    Or,
    Not,
}

/// A literal token. Numbers keep their original spelling so that the
/// generated code reproduces the source's formatting and precision.
#[derive(Debug, Clone)]
pub enum Literal {
    Str(String),
    Character(String),
    Number(String),
}

/// One lexed token of a source line.
#[derive(Debug, Clone)]
pub enum Token {
    Identifier(String),
    Keyword(Keyword),
    SpecialCharacter(SpecialCharacter),
    Literal(Literal),
}

/// The mathematical model of a `Literal`: the same shape over `Seq<char>`.
pub ghost enum LiteralModel {
    Str(Seq<char>),
    Character(Seq<char>),
    Number(Seq<char>),
}

/// The mathematical model of a `Token`: the same shape over `Seq<char>`.
pub ghost enum TokenModel {
    Identifier(Seq<char>),
    Keyword(Keyword),
    SpecialCharacter(SpecialCharacter),
    Literal(LiteralModel),
}

impl View for Literal {
    type V = LiteralModel;

    open spec fn view(&self) -> LiteralModel {
        match self {
            Literal::Str(s) => LiteralModel::Str(s@),
            Literal::Character(s) => LiteralModel::Character(s@),
            Literal::Number(s) => LiteralModel::Number(s@),
        }
    }
}

impl DeepView for Literal {
    type V = LiteralModel;

    open spec fn deep_view(&self) -> LiteralModel {
        self.view()
    }
}

impl View for Token {
    type V = TokenModel;

    open spec fn view(&self) -> TokenModel {
        match self {
            Token::Identifier(s) => TokenModel::Identifier(s@),
            Token::Keyword(k) => TokenModel::Keyword(*k),
            Token::SpecialCharacter(c) => TokenModel::SpecialCharacter(*c),
            Token::Literal(l) => TokenModel::Literal(l@),
        }
    }
}

impl DeepView for Token {
    type V = TokenModel;

    open spec fn deep_view(&self) -> TokenModel {
        self.view()
    }
}

/// A method declaration collected while generating a non-entry module,
/// consumed once at end of file when the registration block is emitted.
#[derive(Debug, Clone)]
pub struct Method {
    pub method: String,
    pub args_str: String,
    pub num_params: usize,
}

/// The mathematical model of a collected `Method`.
pub ghost struct MethodModel {
    pub method: Seq<char>,
    pub args_str: Seq<char>,
    pub num_params: int,
}

impl View for Method {
    type V = MethodModel;

    open spec fn view(&self) -> MethodModel {
        MethodModel {
            method: self.method@,
            args_str: self.args_str@,
            num_params: self.num_params as int,
        }
    }
}

impl DeepView for Method {
    type V = MethodModel;

    open spec fn deep_view(&self) -> MethodModel {
        self.view()
    }
}

/// A parsed command line for the compiler driver.
#[derive(Debug, Clone)]
pub struct Args {
    pub command: String,
    pub executable_name: String,
    pub release: bool,
}

} // verus!

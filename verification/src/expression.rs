//! The expression translator: a run of tokens becomes C++ expression text.
//! Literals become constructed `Value`s, identifiers become variable
//! references (escaped when they collide with a built-in name), a dot
//! followed by an identifier becomes a dynamic method-table lookup on the
//! receiver, braces become list construction, and a doubled dot inside a
//! `loop … in` expression becomes a `Range` with default bounds.

use vstd::prelude::*;

use crate::errors::CompileError;
use crate::text::{dec_chars, dec_digits, push_all, push_str_chars, str_eq, string_from_chars};
use crate::tokens::{Keyword, Literal, LiteralModel, SpecialCharacter, Token, TokenModel};

verus! {

/// The built-in operation names of the runtime. A user identifier with one
/// of these spellings is escaped so both stay resolvable.
pub open spec fn is_builtin_name(w: Seq<char>) -> bool {
    w == "print"@ || w == "type"@ || w == "len"@ || w == "exit"@ || w == "null"@ || w == "int"@
        || w == "float"@ || w == "bool"@ || w == "char"@ || w == "string"@ || w == "list"@
}

/// How an identifier is spelled in the output: built-in names get a
/// leading underscore, everything else is kept as written.
pub open spec fn ident_text(w: Seq<char>) -> Seq<char> {
    if is_builtin_name(w) {
        "_"@ + w
    } else {
        w
    }
}

/// Exec check for `is_builtin_name`.
pub fn is_builtin(id: &str) -> (r: bool)
    ensures
        r == is_builtin_name(id@),
{
    str_eq(id, "print") || str_eq(id, "type") || str_eq(id, "len") || str_eq(id, "exit") || str_eq(
        id,
        "null",
    ) || str_eq(id, "int") || str_eq(id, "float") || str_eq(id, "bool") || str_eq(id, "char")
        || str_eq(id, "string") || str_eq(id, "list")
}

/// The output text of a special character other than the dot.
pub open spec fn special_piece(sc: SpecialCharacter) -> Seq<char> {
    match sc {
        SpecialCharacter::Equals => "="@,
        SpecialCharacter::ExclamationMark => "!"@,
        SpecialCharacter::Dot => ""@,
        SpecialCharacter::Colon => ":"@,
        SpecialCharacter::Comma => ", "@,
        SpecialCharacter::Plus => "+"@,
        SpecialCharacter::Minus => "-"@,
        SpecialCharacter::Asterisk => "*"@,
        SpecialCharacter::Slash => "/"@,
        SpecialCharacter::Percent => "%"@,
        SpecialCharacter::LargerThan => ">"@,
        SpecialCharacter::SmallerThan => "<"@,
        SpecialCharacter::OpenParenthesis => "("@,
        SpecialCharacter::CloseParenthesis => ")"@,
        SpecialCharacter::OpenBracket => "["@,
        SpecialCharacter::CloseBracket => "]"@,
        SpecialCharacter::OpenBrace => "Value(std::vector<Value>{"@,
        SpecialCharacter::CloseBrace => "})"@,
    }
}

fn special_expr_text(sc: SpecialCharacter) -> (r: &'static str)
    ensures
        r@ == special_piece(sc),
{
    match sc {
        SpecialCharacter::Equals => "=",
        SpecialCharacter::ExclamationMark => "!",
        SpecialCharacter::Dot => "",
        SpecialCharacter::Colon => ":",
        SpecialCharacter::Comma => ", ",
        SpecialCharacter::Plus => "+",
        SpecialCharacter::Minus => "-",
        SpecialCharacter::Asterisk => "*",
        SpecialCharacter::Slash => "/",
        SpecialCharacter::Percent => "%",
        SpecialCharacter::LargerThan => ">",
        SpecialCharacter::SmallerThan => "<",
        SpecialCharacter::OpenParenthesis => "(",
        SpecialCharacter::CloseParenthesis => ")",
        SpecialCharacter::OpenBracket => "[",
        SpecialCharacter::CloseBracket => "]",
        SpecialCharacter::OpenBrace => "Value(std::vector<Value>{",
        SpecialCharacter::CloseBrace => "})",
    }
}

/// The output text of a keyword allowed inside an expression, or `None`
/// for a keyword that no expression may hold.
pub open spec fn keyword_piece(kw: Keyword) -> Option<Seq<char>> {
    match kw {
        Keyword::True => Some("Value(true)"@),
        Keyword::False => Some("Value(false)"@),
        Keyword::Null => Some("Value(nullptr)"@),
        Keyword::And => Some("&&"@),
        Keyword::Or => Some("||"@),
        Keyword::Not => Some("!"@),
        _ => None,
    }
}

fn keyword_expr_text(kw: Keyword) -> (r: Option<&'static str>)
    ensures
        match r {
            Some(t) => keyword_piece(kw) == Some(t@),
            None => keyword_piece(kw) is None,
        },
{
    match kw {
        Keyword::True => Some("Value(true)"),
        Keyword::False => Some("Value(false)"),
        Keyword::Null => Some("Value(nullptr)"),
        Keyword::And => Some("&&"),
        Keyword::Or => Some("||"),
        Keyword::Not => Some("!"),
        _ => None,
    }
}

/// Puts one piece of text in front of the outcome of translating the rest.
pub open spec fn txt_cons(t: Seq<char>, r: Result<Seq<char>, CompileError>) -> Result<
    Seq<char>,
    CompileError,
> {
    match r {
        Ok(ts) => Ok(t + ts),
        Err(e) => Err(e),
    }
}

/// Puts the text already built in front of the outcome of translating the
/// rest.
pub open spec fn txt_cons_all(pre: Seq<char>, r: Result<Seq<char>, CompileError>) -> Result<
    Seq<char>,
    CompileError,
> {
    match r {
        Ok(ts) => Ok(pre + ts),
        Err(e) => Err(e),
    }
}

proof fn lemma_txt_cons_all_empty(r: Result<Seq<char>, CompileError>)
    ensures
        txt_cons_all(Seq::empty(), r) == r,
{
    match r {
        Ok(ts) => {
            assert(Seq::empty() + ts =~= ts);
        },
        Err(_) => {},
    }
}

proof fn lemma_txt_cons_all_merge(
    pre: Seq<char>,
    t: Seq<char>,
    r: Result<Seq<char>, CompileError>,
)
    ensures
        txt_cons_all(pre, txt_cons(t, r)) == txt_cons_all(pre + t, r),
{
    match r {
        Ok(ts) => {
            assert(pre + (t + ts) =~= (pre + t) + ts);
        },
        Err(_) => {},
    }
}

/// The expression text from token `i` on. A dot must be followed by an
/// identifier, and only the boolean and null keywords may appear; any
/// other keyword is a failure.
pub open spec fn expr_from(toks: Seq<TokenModel>, i: nat) -> Result<Seq<char>, CompileError>
    decreases toks.len() - i,
{
    if i >= toks.len() {
        Ok(Seq::empty())
    } else {
        match toks[i as int] {
            TokenModel::Identifier(w) => txt_cons(ident_text(w), expr_from(toks, i + 1)),
            TokenModel::Literal(l) => {
                let t = match l {
                    LiteralModel::Str(s0) => "Value(\""@ + s0 + "\")"@,
                    LiteralModel::Character(c0) => "Value('"@ + c0 + "')"@,
                    LiteralModel::Number(n0) => "Value("@ + n0 + ")"@,
                };
                txt_cons(t, expr_from(toks, i + 1))
            },
            TokenModel::SpecialCharacter(sc) => {
                if sc is Dot {
                    if i + 1 < toks.len() && toks[i + 1 as int] is Identifier {
                        let m = toks[i + 1 as int]->Identifier_0;
                        txt_cons("[\""@ + m + "\"]"@, expr_from(toks, i + 2))
                    } else {
                        Err(CompileError::UnexpectedTokenSequence)
                    }
                } else {
                    txt_cons(special_piece(sc), expr_from(toks, i + 1))
                }
            },
            TokenModel::Keyword(kw) => {
                match keyword_piece(kw) {
                    Some(t) => txt_cons(t, expr_from(toks, i + 1)),
                    None => Err(CompileError::UnexpectedTokenSequence),
                }
            },
        }
    }
}

/// The translation of a whole expression; an empty token run is a
/// failure.
pub open spec fn expr_text(toks: Seq<TokenModel>) -> Result<Seq<char>, CompileError> {
    if toks.len() == 0 {
        Err(CompileError::EmptyExpression)
    } else {
        expr_from(toks, 0)
    }
}

/// Translates the tokens from `from` (inclusive) to `to` (exclusive) into
/// C++ expression text, exactly as `expr_text` describes; the translation
/// succeeds if and only if the run is non-empty, every dot is followed by
/// an identifier, and no statement keyword occurs in it.
#[verifier::rlimit(50)]
pub fn generate_expression(tokens: &Vec<Token>, from: usize, to: usize) -> (r: Result<
    String,
    CompileError,
>)
    requires
        from <= to <= tokens@.len(),
    ensures
        match r {
            Ok(s) => expr_text(tokens.deep_view().subrange(from as int, to as int)) == Ok::<
                Seq<char>,
                CompileError,
            >(s@),
            Err(e) => expr_text(tokens.deep_view().subrange(from as int, to as int)) == Err::<
                Seq<char>,
                CompileError,
            >(e),
        },
{
    let ghost toks = tokens.deep_view().subrange(from as int, to as int);
    if from == to {
        return Err(CompileError::EmptyExpression);
    }
    let mut out: Vec<char> = Vec::new();
    let mut k = from;
    proof {
        lemma_txt_cons_all_empty(expr_from(toks, 0));
        assert(out@ =~= Seq::<char>::empty());
    }
    while k < to
        invariant
            from <= k <= to <= tokens@.len(),
            toks == tokens.deep_view().subrange(from as int, to as int),
            toks.len() == to - from,
            expr_from(toks, 0) == txt_cons_all(out@, expr_from(toks, (k - from) as nat)),
        decreases to - k,
    {
        let ghost pre = out@;
        let ghost li = (k - from) as nat;
        proof {
            assert(toks[li as int] == tokens@[k as int].deep_view());
        }
        match &tokens[k] {
            Token::Identifier(id) => {
                let ghost piece = ident_text(id@);
                if is_builtin(id.as_str()) {
                    push_str_chars("_", &mut out);
                    push_str_chars(id.as_str(), &mut out);
                    proof {
                        assert(out@ =~= pre + piece);
                    }
                } else {
                    push_str_chars(id.as_str(), &mut out);
                }
                proof {
                    lemma_txt_cons_all_merge(pre, piece, expr_from(toks, li + 1));
                }
                k = k + 1;
            },
            Token::Literal(l) => {
                let ghost piece = match l@ {
                    LiteralModel::Str(s0) => "Value(\""@ + s0 + "\")"@,
                    LiteralModel::Character(c0) => "Value('"@ + c0 + "')"@,
                    LiteralModel::Number(n0) => "Value("@ + n0 + ")"@,
                };
                match l {
                    Literal::Str(s0) => {
                        push_str_chars("Value(\"", &mut out);
                        push_str_chars(s0.as_str(), &mut out);
                        push_str_chars("\")", &mut out);
                    },
                    Literal::Character(c0) => {
                        push_str_chars("Value('", &mut out);
                        push_str_chars(c0.as_str(), &mut out);
                        push_str_chars("')", &mut out);
                    },
                    Literal::Number(n0) => {
                        push_str_chars("Value(", &mut out);
                        push_str_chars(n0.as_str(), &mut out);
                        push_str_chars(")", &mut out);
                    },
                }
                proof {
                    assert(out@ =~= pre + piece);
                    lemma_txt_cons_all_merge(pre, piece, expr_from(toks, li + 1));
                }
                k = k + 1;
            },
            Token::SpecialCharacter(sc) => {
                if matches!(sc, SpecialCharacter::Dot) {
                    if k + 1 < to {
                        proof {
                            assert(toks[li as int + 1] == tokens@[k as int + 1].deep_view());
                        }
                        match &tokens[k + 1] {
                            Token::Identifier(m) => {
                                let ghost piece = "[\""@ + m@ + "\"]"@;
                                push_str_chars("[\"", &mut out);
                                push_str_chars(m.as_str(), &mut out);
                                push_str_chars("\"]", &mut out);
                                proof {
                                    assert(out@ =~= pre + piece);
                                    lemma_txt_cons_all_merge(pre, piece, expr_from(toks, li + 2));
                                }
                                k = k + 2;
                            },
                            _ => {
                                return Err(CompileError::UnexpectedTokenSequence);
                            },
                        }
                    } else {
                        return Err(CompileError::UnexpectedTokenSequence);
                    }
                } else {
                    let ghost piece = special_piece(*sc);
                    push_str_chars(special_expr_text(*sc), &mut out);
                    proof {
                        lemma_txt_cons_all_merge(pre, piece, expr_from(toks, li + 1));
                    }
                    k = k + 1;
                }
            },
            Token::Keyword(kw) => {
                match keyword_expr_text(*kw) {
                    Some(t) => {
                        let ghost piece = keyword_piece(*kw)->Some_0;
                        push_str_chars(t, &mut out);
                        proof {
                            lemma_txt_cons_all_merge(pre, piece, expr_from(toks, li + 1));
                        }
                        k = k + 1;
                    },
                    None => {
                        return Err(CompileError::UnexpectedTokenSequence);
                    },
                }
            },
        }
    }
    proof {
        assert(expr_from(toks, (k - from) as nat) == Ok::<Seq<char>, CompileError>(Seq::empty()));
        assert(out@ + Seq::<char>::empty() =~= out@);
    }
    Ok(string_from_chars(out.as_slice()))
}

/// The position of the first doubled dot at or after `j`, if any.
pub open spec fn find_dotdot(toks: Seq<TokenModel>, j: nat) -> Option<int>
    decreases toks.len() - j,
{
    if j + 1 >= toks.len() {
        None
    } else if toks[j as int] == TokenModel::SpecialCharacter(SpecialCharacter::Dot) && toks[j
        + 1 as int] == TokenModel::SpecialCharacter(SpecialCharacter::Dot) {
        Some(j as int)
    } else {
        find_dotdot(toks, j + 1)
    }
}

/// What a `loop … in` source expression lowers to. A doubled dot splits
/// the run into start and end bounds of a `Range`: an empty start
/// defaults to zero and an empty end to the largest 32-bit signed
/// integer. Without a doubled dot the run is an ordinary expression.
pub open spec fn iter_text(toks: Seq<TokenModel>) -> Result<Seq<char>, CompileError> {
    if toks.len() == 0 {
        Err(CompileError::EmptyExpression)
    } else {
        match find_dotdot(toks, 0) {
            None => expr_text(toks),
            Some(p) => {
                let st = if p == 0 {
                    Ok("Value(0)"@)
                } else {
                    expr_text(toks.take(p))
                };
                match st {
                    Err(e) => Err(e),
                    Ok(s) => {
                        let en = if p + 2 == toks.len() {
                            Ok("Value(2147483647)"@)
                        } else {
                            expr_text(toks.skip(p + 2))
                        };
                        match en {
                            Err(e) => Err(e),
                            Ok(t) => Ok("Range("@ + s + ", "@ + t + ")"@),
                        }
                    },
                }
            },
        }
    }
}

fn is_dot(t: &Token) -> (r: bool)
    ensures
        r == (t@ == TokenModel::SpecialCharacter(SpecialCharacter::Dot)),
{
    match t {
        Token::SpecialCharacter(SpecialCharacter::Dot) => true,
        _ => false,
    }
}

/// Lowers the tokens from `from` to `to` as the source of a `loop … in`,
/// exactly as `iter_text` describes: a doubled dot becomes a `Range` whose
/// missing start bound defaults to `0` and whose missing end bound
/// defaults to `2147483647`.
pub fn generate_iterator(tokens: &Vec<Token>, from: usize, to: usize) -> (r: Result<
    String,
    CompileError,
>)
    requires
        from <= to <= tokens@.len(),
    ensures
        match r {
            Ok(s) => iter_text(tokens.deep_view().subrange(from as int, to as int)) == Ok::<
                Seq<char>,
                CompileError,
            >(s@),
            Err(e) => iter_text(tokens.deep_view().subrange(from as int, to as int)) == Err::<
                Seq<char>,
                CompileError,
            >(e),
        },
{
    let ghost toks = tokens.deep_view().subrange(from as int, to as int);
    if from == to {
        return Err(CompileError::EmptyExpression);
    }

    // Look for the doubled dot.
    let mut k = from;
    let mut dotdot: Option<usize> = None;
    #[verifier::loop_isolation(true)]
    loop
        invariant_except_break
            dotdot is None,
            find_dotdot(toks, 0) == find_dotdot(toks, (k - from) as nat),
        invariant
            from <= k <= to <= tokens@.len(),
            to > from,
            toks == tokens.deep_view().subrange(from as int, to as int),
            toks.len() == to - from,
        ensures
            dotdot is None ==> find_dotdot(toks, 0) is None,
            dotdot matches Some(p) ==> from <= p && p + 1 < to && find_dotdot(toks, 0) == Some(
                p - from,
            ),
        decreases to - k,
    {
        if k >= to - 1 {
            proof {
                assert(find_dotdot(toks, (k - from) as nat) is None);
            }
            break;
        }
        proof {
            assert(toks[(k - from) as int] == tokens@[k as int].deep_view());
            assert(toks[(k - from) as int + 1] == tokens@[k as int + 1].deep_view());
        }
        if is_dot(&tokens[k]) && is_dot(&tokens[k + 1]) {
            proof {
                assert(toks[(k - from) as int] == TokenModel::SpecialCharacter(
                    SpecialCharacter::Dot,
                ));
                assert(toks[(k - from) as int + 1] == TokenModel::SpecialCharacter(
                    SpecialCharacter::Dot,
                ));
                assert(find_dotdot(toks, (k - from) as nat) == Some((k - from) as int));
                assert(find_dotdot(toks, 0) == Some(k - from));
            }
            dotdot = Some(k);
            break;
        } else {
            k = k + 1;
        }
    }

    match dotdot {
        None => generate_expression(tokens, from, to),
        Some(p) => {
            let ghost sp = (p - from) as int;
            let start_txt: String = if p == from {
                String::new()
            } else {
                match generate_expression(tokens, from, p) {
                    Ok(s) => s,
                    Err(e) => {
                        proof {
                            assert(toks.take(sp) =~= tokens.deep_view().subrange(
                                from as int,
                                p as int,
                            ));
                        }
                        return Err(e);
                    },
                }
            };
            proof {
                if p != from {
                    assert(toks.take(sp) =~= tokens.deep_view().subrange(from as int, p as int));
                }
            }
            let end_txt: String = if p + 2 == to {
                String::new()
            } else {
                match generate_expression(tokens, p + 2, to) {
                    Ok(s) => s,
                    Err(e) => {
                        proof {
                            assert(toks.skip(sp + 2) =~= tokens.deep_view().subrange(
                                p as int + 2,
                                to as int,
                            ));
                        }
                        return Err(e);
                    },
                }
            };
            proof {
                if p + 2 != to {
                    assert(toks.skip(sp + 2) =~= tokens.deep_view().subrange(
                        p as int + 2,
                        to as int,
                    ));
                }
            }
            let mut out: Vec<char> = Vec::new();
            push_str_chars("Range(", &mut out);
            if p == from {
                push_str_chars("Value(0)", &mut out);
            } else {
                push_str_chars(start_txt.as_str(), &mut out);
            }
            push_str_chars(", ", &mut out);
            if p + 2 == to {
                push_str_chars("Value(2147483647)", &mut out);
            } else {
                push_str_chars(end_txt.as_str(), &mut out);
            }
            push_str_chars(")", &mut out);
            proof {
                let st = if sp == 0 {
                    "Value(0)"@
                } else {
                    expr_text(toks.take(sp))->Ok_0
                };
                let en = if sp + 2 == toks.len() {
                    "Value(2147483647)"@
                } else {
                    expr_text(toks.skip(sp + 2))->Ok_0
                };
                assert(out@ =~= "Range("@ + st + ", "@ + en + ")"@);
            }
            Ok(string_from_chars(out.as_slice()))
        },
    }
}

/// The parameter-list text from token `i` on: identifiers and commas in
/// strict alternation, each identifier declared as a `Value`.
pub open spec fn params_from(toks: Seq<TokenModel>, i: nat, expect_comma: bool) -> Result<
    Seq<char>,
    CompileError,
>
    decreases toks.len() - i,
{
    if i >= toks.len() {
        Ok(Seq::empty())
    } else {
        match toks[i as int] {
            TokenModel::SpecialCharacter(sc) => if sc is Comma && expect_comma {
                txt_cons(", "@, params_from(toks, i + 1, false))
            } else {
                Err(CompileError::UnexpectedTokenSequence)
            },
            TokenModel::Identifier(nm) => if !expect_comma {
                txt_cons("Value "@ + nm, params_from(toks, i + 1, true))
            } else {
                Err(CompileError::UnexpectedTokenSequence)
            },
            _ => Err(CompileError::UnexpectedTokenSequence),
        }
    }
}

/// The translation of a whole parameter list.
pub open spec fn params_text(toks: Seq<TokenModel>) -> Result<Seq<char>, CompileError> {
    params_from(toks, 0, false)
}

/// The number of comma tokens in the run.
pub open spec fn count_commas(toks: Seq<TokenModel>, i: nat) -> int
    decreases toks.len() - i,
{
    if i >= toks.len() {
        0
    } else if toks[i as int] == TokenModel::SpecialCharacter(SpecialCharacter::Comma) {
        1 + count_commas(toks, i + 1)
    } else {
        count_commas(toks, i + 1)
    }
}

/// The arity a method declaration records for its parameter run: zero for
/// no parameters, otherwise one more than the number of commas.
pub open spec fn params_arity(toks: Seq<TokenModel>) -> int {
    if toks.len() == 0 {
        0
    } else {
        count_commas(toks, 0) + 1
    }
}

/// Translates a parameter run and also yields the arity that a method
/// declaration over it records.
pub fn generate_params_counted(tokens: &Vec<Token>, from: usize, to: usize) -> (r: Result<
    (String, usize),
    CompileError,
>)
    requires
        from <= to <= tokens@.len(),
    ensures
        match r {
            Ok(p) => params_text(tokens.deep_view().subrange(from as int, to as int)) == Ok::<
                Seq<char>,
                CompileError,
            >(p.0@) && p.1 == params_arity(tokens.deep_view().subrange(from as int, to as int)),
            Err(e) => params_text(tokens.deep_view().subrange(from as int, to as int)) == Err::<
                Seq<char>,
                CompileError,
            >(e),
        },
{
    let ghost toks = tokens.deep_view().subrange(from as int, to as int);
    let mut out: Vec<char> = Vec::new();
    let mut commas: usize = 0;
    let mut expect_comma = false;
    let mut k = from;
    proof {
        lemma_txt_cons_all_empty(params_from(toks, 0, false));
        assert(out@ =~= Seq::<char>::empty());
    }
    while k < to
        invariant
            from <= k <= to <= tokens@.len(),
            toks == tokens.deep_view().subrange(from as int, to as int),
            toks.len() == to - from,
            commas <= k - from,
            expect_comma ==> k > from,
            k > from ==> commas + 1 <= k - from,
            params_from(toks, 0, false) == txt_cons_all(
                out@,
                params_from(toks, (k - from) as nat, expect_comma),
            ),
            count_commas(toks, 0) == commas + count_commas(toks, (k - from) as nat),
        decreases to - k,
    {
        let ghost pre = out@;
        let ghost li = (k - from) as nat;
        proof {
            assert(toks[li as int] == tokens@[k as int].deep_view());
        }
        match &tokens[k] {
            Token::SpecialCharacter(SpecialCharacter::Comma) => {
                if expect_comma {
                    push_str_chars(", ", &mut out);
                    proof {
                        lemma_txt_cons_all_merge(pre, ", "@, params_from(toks, li + 1, false));
                    }
                    commas = commas + 1;
                    expect_comma = false;
                    k = k + 1;
                } else {
                    return Err(CompileError::UnexpectedTokenSequence);
                }
            },
            Token::Identifier(nm) => {
                if !expect_comma {
                    let ghost piece = "Value "@ + nm@;
                    push_str_chars("Value ", &mut out);
                    push_str_chars(nm.as_str(), &mut out);
                    proof {
                        assert(out@ =~= pre + piece);
                        lemma_txt_cons_all_merge(pre, piece, params_from(toks, li + 1, true));
                    }
                    expect_comma = true;
                    k = k + 1;
                } else {
                    return Err(CompileError::UnexpectedTokenSequence);
                }
            },
            _ => {
                return Err(CompileError::UnexpectedTokenSequence);
            },
        }
    }
    proof {
        assert(params_from(toks, (k - from) as nat, expect_comma) == Ok::<Seq<char>, CompileError>(
            Seq::empty(),
        ));
        assert(out@ + Seq::<char>::empty() =~= out@);
    }
    let arity = if out.len() == 0 {
        0
    } else {
        commas + 1
    };
    proof {
        if out@.len() == 0 {
            lemma_params_empty_text(toks, 0, false);
        } else {
            lemma_params_nonempty_text(toks, 0, false);
        }
    }
    Ok((string_from_chars(out.as_slice()), arity))
}

/// An empty parameter text comes only from an empty run.
proof fn lemma_params_empty_text(toks: Seq<TokenModel>, i: nat, expect_comma: bool)
    requires
        params_from(toks, i, expect_comma) matches Ok(t) && t.len() == 0,
    ensures
        i >= toks.len(),
    decreases toks.len() - i,
{
    if i < toks.len() {
        match toks[i as int] {
            TokenModel::SpecialCharacter(sc) => {
                reveal_strlit(", ");
            },
            TokenModel::Identifier(nm) => {
                reveal_strlit("Value ");
            },
            _ => {},
        }
    }
}

/// A non-empty run yields non-empty parameter text.
proof fn lemma_params_nonempty_text(toks: Seq<TokenModel>, i: nat, expect_comma: bool)
    requires
        params_from(toks, i, expect_comma) matches Ok(t) && t.len() > 0,
    ensures
        i < toks.len(),
    decreases toks.len() - i,
{
}

/// Translates a parameter run: identifiers and commas in strict
/// alternation, each identifier declared as a `Value` parameter.
pub fn generate_params(tokens: &Vec<Token>, from: usize, to: usize) -> (r: Result<
    String,
    CompileError,
>)
    requires
        from <= to <= tokens@.len(),
    ensures
        match r {
            Ok(s) => params_text(tokens.deep_view().subrange(from as int, to as int)) == Ok::<
                Seq<char>,
                CompileError,
            >(s@),
            Err(e) => params_text(tokens.deep_view().subrange(from as int, to as int)) == Err::<
                Seq<char>,
                CompileError,
            >(e),
        },
{
    match generate_params_counted(tokens, from, to) {
        Ok((s, _)) => Ok(s),
        Err(e) => Err(e),
    }
}

/// The forwarding list `args[0], args[1], …` with the trailing separator
/// still attached.
pub open spec fn args_full(n: nat) -> Seq<char>
    decreases n,
{
    if n == 0 {
        Seq::empty()
    } else {
        args_full((n - 1) as nat) + "args["@ + dec_digits((n - 1) as nat) + "], "@
    }
}

/// The forwarding list for `n` arguments: `args[0], args[1], …,
/// args[n-1]`, one positional entry for each of the `n` arguments and
/// nothing else.
pub open spec fn args_fwd(n: nat) -> Seq<char> {
    if n == 0 {
        Seq::empty()
    } else {
        args_full(n).take(args_full(n).len() - 2)
    }
}

/// Builds the text that forwards `num_args` arguments positionally to the
/// flat function behind a registered method.
pub fn generate_args(num_args: usize) -> (r: String)
    ensures
        r@ == args_fwd(num_args as nat),
{
    let mut out: Vec<char> = Vec::new();
    let mut i: usize = 0;
    while i < num_args
        invariant
            i <= num_args,
            out@ == args_full(i as nat),
        decreases num_args - i,
    {
        let ghost pre = out@;
        push_str_chars("args[", &mut out);
        let d = dec_chars(i);
        push_all(&d, &mut out);
        push_str_chars("], ", &mut out);
        i = i + 1;
        proof {
            assert(out@ =~= args_full(i as nat));
        }
    }
    if num_args > 0 {
        proof {
            reveal_strlit("args[");
            reveal_strlit("], ");
            assert(out@.len() >= 2);
        }
        out.pop();
        out.pop();
        proof {
            assert(out@ =~= args_full(num_args as nat).take(
                args_full(num_args as nat).len() - 2,
            ));
        }
    }
    string_from_chars(out.as_slice())
}

/// The output spelling of a compound-assignment operator.
pub open spec fn op_sign(op: SpecialCharacter) -> Seq<char> {
    match op {
        SpecialCharacter::Plus => "+"@,
        SpecialCharacter::Minus => "-"@,
        SpecialCharacter::Asterisk => "*"@,
        SpecialCharacter::Slash => "/"@,
        _ => ""@,
    }
}

/// The operator sign of an arithmetic special character, for compound
/// assignments.
pub fn to_operation_sign(op: &SpecialCharacter) -> (r: &'static str)
    requires
        op is Plus || op is Minus || op is Asterisk || op is Slash,
    ensures
        r@ == op_sign(*op),
{
    match op {
        SpecialCharacter::Plus => "+",
        SpecialCharacter::Minus => "-",
        SpecialCharacter::Asterisk => "*",
        SpecialCharacter::Slash => "/",
        _ => "",
    }
}

} // verus!

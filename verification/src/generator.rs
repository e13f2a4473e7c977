//! The scope-tracking generator: one logical line's tokens, the line's
//! depth and the previous line's depth in; the statement text for the
//! definition file and, for top-level declarations of non-entry modules,
//! the declaration text for the header out. Dedents close one block per
//! level stepped down, and closing the top level of a non-entry module
//! inserts a fallback `return` so every generated function body ends in
//! one.

use vstd::prelude::*;

use crate::errors::CompileError;
use crate::expression::{
    args_fwd, expr_text, generate_args, generate_expression, generate_iterator, generate_params,
    generate_params_counted, iter_text, op_sign, params_arity, params_text,
};
use crate::text::{
    chars_of, contains_chars, contains_seq, push_all, push_str_chars, push_tabs, str_eq,
    string_from_chars, subvec, tab_indent, trim_ly, trim_ly_str,
};
use crate::tokens::{Keyword, Method, MethodModel, SpecialCharacter, Token, TokenModel};

verus! {

/// The spelling of the C++ file-inclusion directive. It is assembled from
/// two halves wherever it is needed, so the directive appears only in the
/// generated text.
pub open spec fn inc_directive() -> Seq<char> {
    "#inc"@ + "lude"@
}

/// Appends the file-inclusion directive to `out`.
pub fn push_inc_directive(out: &mut Vec<char>)
    ensures
        final(out)@ == old(out)@ + inc_directive(),
{
    push_str_chars("#inc", out);
    push_str_chars("lude", out);
    proof {
        assert(out@ =~= old(out)@ + inc_directive());
    }
}

/// The spelling of the C++ external-linkage keyword, assembled the same
/// way.
pub open spec fn ext_linkage() -> Seq<char> {
    "ext"@ + "ern"@
}

/// Appends the external-linkage keyword to `out`.
pub fn push_ext_linkage(out: &mut Vec<char>)
    ensures
        final(out)@ == old(out)@ + ext_linkage(),
{
    push_str_chars("ext", out);
    push_str_chars("ern", out);
    proof {
        assert(out@ =~= old(out)@ + ext_linkage());
    }
}

/// Whether the file is the entry module, whose top-level statements become
/// the program's entry point.
pub open spec fn is_entry(fname: Seq<char>) -> bool {
    fname == "main.ly"@
}

/// One scope-closing line at nesting level `lvl`: its indentation, then
/// the closing brace — preceded, when the closed level is the top level of
/// a non-entry module, by the fallback `return` that guarantees the
/// generated function a reachable return on every path.
pub open spec fn closing_line(fname: Seq<char>, lvl: nat) -> Seq<char> {
    tab_indent(lvl) + (if !is_entry(fname) && lvl == 0 {
        "\treturn Value(nullptr);\n}"@
    } else {
        "}"@
    }) + "\n"@
}

/// The scope-closing text emitted when a line at depth `tabs` follows a
/// line at depth `last`: one closing line per level stepped down, most
/// deeply nested first. Empty unless `tabs < last`.
pub open spec fn scope_close(fname: Seq<char>, tabs: nat, last: nat) -> Seq<char>
    decreases last,
{
    if last <= tabs {
        Seq::empty()
    } else {
        closing_line(fname, (last - 1) as nat) + scope_close(fname, tabs, (last - 1) as nat)
    }
}

/// Peeling the bottom level off a scope-closing run: closing down to
/// level `a` is closing down to level `a + 1`, then one more line at
/// level `a`.
pub proof fn lemma_scope_close_bottom(fname: Seq<char>, a: nat, b: nat)
    requires
        a < b,
    ensures
        scope_close(fname, a, b) == scope_close(fname, (a + 1) as nat, b) + closing_line(fname, a),
    decreases b,
{
    if b == a + 1 {
        assert(scope_close(fname, (a + 1) as nat, b) =~= Seq::<char>::empty());
        assert(scope_close(fname, a, b) =~= closing_line(fname, a) + scope_close(fname, a, a));
        assert(scope_close(fname, a, a) =~= Seq::<char>::empty());
        assert(closing_line(fname, a) + Seq::<char>::empty() =~= closing_line(fname, a));
        assert(Seq::<char>::empty() + closing_line(fname, a) =~= closing_line(fname, a));
    } else {
        lemma_scope_close_bottom(fname, a, (b - 1) as nat);
        assert(scope_close(fname, a, b) == closing_line(fname, (b - 1) as nat) + scope_close(
            fname,
            a,
            (b - 1) as nat,
        ));
        assert(closing_line(fname, (b - 1) as nat) + (scope_close(fname, (a + 1) as nat, (b
            - 1) as nat) + closing_line(fname, a)) =~= (closing_line(fname, (b - 1) as nat)
            + scope_close(fname, (a + 1) as nat, (b - 1) as nat)) + closing_line(fname, a));
    }
}

/// Appends the scope-closing text for a step from depth `last` down to
/// depth `tabs` of file `fname`.
pub fn push_scope_close(fname: &str, tabs: usize, last: usize, out: &mut Vec<char>)
    ensures
        final(out)@ == old(out)@ + scope_close(fname@, tabs as nat, last as nat),
{
    let entry = str_eq(fname, "main.ly");
    let mut lvl = last;
    while lvl > tabs
        invariant
            entry == is_entry(fname@),
            out@ == old(out)@ + scope_close(fname@, lvl as nat, last as nat),
            tabs <= lvl <= last || lvl == last,
        decreases lvl,
    {
        lvl = lvl - 1;
        let ghost before = out@;
        push_tabs(lvl, out);
        if !entry && lvl == 0 {
            push_str_chars("\treturn Value(nullptr);\n}", out);
        } else {
            push_str_chars("}", out);
        }
        push_str_chars("\n", out);
        proof {
            assert(out@ =~= before + closing_line(fname@, lvl as nat));
            lemma_scope_close_bottom(fname@, lvl as nat, last as nat);
            assert(out@ =~= old(out)@ + scope_close(fname@, lvl as nat, last as nat));
        }
    }
    proof {
        if !(last > tabs) {
            assert(scope_close(fname@, lvl as nat, last as nat) =~= Seq::<char>::empty());
            assert(out@ =~= old(out)@ + scope_close(fname@, lvl as nat, last as nat));
        }
        assert(lvl <= tabs);
        assert(scope_close(fname@, lvl as nat, last as nat) == scope_close(
            fname@,
            tabs as nat,
            last as nat,
        ));
    }
}

/// The position of the first newline at or after `j`, if any.
pub open spec fn find_nl(c: Seq<char>, j: nat) -> Option<int>
    decreases c.len() - j,
{
    if j >= c.len() {
        None
    } else if c[j as int] == '\n' {
        Some(j as int)
    } else {
        find_nl(c, j + 1)
    }
}

/// One output line with its indentation: `tabs` tab characters, plus one
/// extra inside the entry point — whose body sits inside `main` — except
/// on lines that carry a file-inclusion directive.
pub open spec fn indented_line(l: Seq<char>, tabs: nat, base: Seq<char>) -> Seq<char> {
    if base == "main"@ && !contains_seq(l, inc_directive()) {
        "\t"@ + tab_indent(tabs) + l
    } else {
        tab_indent(tabs) + l
    }
}

/// The statement text re-indented line by line: each newline-separated
/// line gets the indentation of `indented_line`; empty text stays empty.
pub open spec fn add_tabs_model(c: Seq<char>, tabs: nat, base: Seq<char>) -> Seq<char>
    decreases c.len(),
        via add_tabs_model_dec
{
    if c.len() == 0 {
        Seq::empty()
    } else {
        match find_nl(c, 0) {
            None => indented_line(c, tabs, base),
            Some(p) => indented_line(c.take(p), tabs, base) + "\n"@ + add_tabs_model(
                c.skip(p + 1),
                tabs,
                base,
            ),
        }
    }
}

#[via_fn]
proof fn add_tabs_model_dec(c: Seq<char>, tabs: nat, base: Seq<char>) {
    if c.len() > 0 && find_nl(c, 0) is Some {
        lemma_find_nl_in_range(c, 0);
    }
}

proof fn lemma_find_nl_in_range(c: Seq<char>, j: nat)
    requires
        find_nl(c, j) is Some,
    ensures
        j <= find_nl(c, j)->Some_0 < c.len(),
        c[find_nl(c, j)->Some_0] == '\n',
    decreases c.len() - j,
{
    if j < c.len() && c[j as int] != '\n' {
        lemma_find_nl_in_range(c, j + 1);
    }
}

fn find_newline(v: &Vec<char>, start: usize) -> (r: Option<usize>)
    requires
        start <= v@.len(),
    ensures
        match r {
            Some(p) => start <= p < v@.len() && find_nl(v@.skip(start as int), 0) == Some(
                p - start,
            ) && v@[p as int] == '\n',
            None => find_nl(v@.skip(start as int), 0) is None,
        },
{
    let ghost rest = v@.skip(start as int);
    let n = v.len();
    let mut p = start;
    while p < n
        invariant
            start <= p <= n,
            n == v@.len(),
            rest == v@.skip(start as int),
            find_nl(rest, 0) == find_nl(rest, (p - start) as nat),
        decreases n - p,
    {
        proof {
            assert(rest[p - start] == v@[p as int]);
        }
        if v[p] == '\n' {
            proof {
                assert(find_nl(rest, (p - start) as nat) == Some(p - start));
            }
            return Some(p);
        }
        p = p + 1;
    }
    proof {
        assert(find_nl(rest, (p - start) as nat) is None);
    }
    None
}

fn indent_one_line(
    v: &Vec<char>,
    a: usize,
    b: usize,
    tabs: usize,
    base: &str,
    main_base: bool,
    out: &mut Vec<char>,
)
    requires
        a <= b <= v@.len(),
        main_base == (base@ == "main"@),
    ensures
        final(out)@ == old(out)@ + indented_line(
            v@.subrange(a as int, b as int),
            tabs as nat,
            base@,
        ),
{
    let line = subvec(v, a, b);
    let mut needle: Vec<char> = Vec::new();
    push_inc_directive(&mut needle);
    if main_base && !contains_chars(&line, &needle) {
        push_str_chars("\t", out);
        push_tabs(tabs, out);
        push_all(&line, out);
        proof {
            assert(out@ =~= old(out)@ + ("\t"@ + tab_indent(tabs as nat) + line@));
        }
    } else {
        push_tabs(tabs, out);
        push_all(&line, out);
        proof {
            assert(out@ =~= old(out)@ + (tab_indent(tabs as nat) + line@));
        }
    }
}

/// Re-indents already generated statement text: every newline-separated
/// line is prefixed with `tabs` tabs, and lines of the entry module get
/// one extra tab (its body sits inside `main`) unless they carry a
/// file-inclusion directive.
pub fn add_tabs_after_newlines(code: &str, tabs: usize, filename: &str) -> (r: String)
    ensures
        r@ == add_tabs_model(code@, tabs as nat, filename@),
{
    let v = chars_of(code);
    let main_base = str_eq(filename, "main");
    let n = v.len();
    let mut out: Vec<char> = Vec::new();
    let mut start: usize = 0;
    proof {
        assert(v@.skip(0) =~= code@);
        assert(out@ =~= Seq::<char>::empty());
        assert(out@ + add_tabs_model(code@, tabs as nat, filename@) =~= add_tabs_model(
            code@,
            tabs as nat,
            filename@,
        ));
    }
    #[verifier::loop_isolation(true)]
    loop
        invariant
            start <= n,
            n == v@.len(),
            v@ == code@,
            main_base == (filename@ == "main"@),
            add_tabs_model(code@, tabs as nat, filename@) == out@ + add_tabs_model(
                v@.skip(start as int),
                tabs as nat,
                filename@,
            ),
        ensures
            add_tabs_model(code@, tabs as nat, filename@) == out@,
        decreases n - start,
    {
        let ghost rest = v@.skip(start as int);
        if start == n {
            proof {
                assert(rest.len() == 0);
                assert(add_tabs_model(rest, tabs as nat, filename@) == Seq::<char>::empty());
                assert(out@ + Seq::<char>::empty() =~= out@);
            }
            break;
        }
        let ghost before = out@;
        match find_newline(&v, start) {
            Some(p) => {
                proof {
                    assert(rest.len() > 0);
                    assert(rest.take(p - start) =~= v@.subrange(start as int, p as int));
                    assert(rest.skip(p - start + 1) =~= v@.skip(p as int + 1));
                }
                indent_one_line(&v, start, p, tabs, filename, main_base, &mut out);
                push_str_chars("\n", &mut out);
                proof {
                    let line = indented_line(
                        v@.subrange(start as int, p as int),
                        tabs as nat,
                        filename@,
                    );
                    assert(out@ =~= before + (line + "\n"@));
                    assert(add_tabs_model(rest, tabs as nat, filename@) == line + "\n"@
                        + add_tabs_model(v@.skip(p as int + 1), tabs as nat, filename@));
                    assert((before + (line + "\n"@)) + add_tabs_model(
                        v@.skip(p as int + 1),
                        tabs as nat,
                        filename@,
                    ) =~= before + (line + "\n"@ + add_tabs_model(
                        v@.skip(p as int + 1),
                        tabs as nat,
                        filename@,
                    )));
                }
                start = p + 1;
            },
            None => {
                proof {
                    assert(rest.len() > 0);
                    assert(rest =~= v@.subrange(start as int, n as int));
                }
                indent_one_line(&v, start, n, tabs, filename, main_base, &mut out);
                start = n;
                proof {
                    assert(add_tabs_model(rest, tabs as nat, filename@) == indented_line(
                        rest,
                        tabs as nat,
                        filename@,
                    ));
                    assert(out@ =~= before + indented_line(rest, tabs as nat, filename@));
                    assert(v@.skip(n as int).len() == 0);
                    assert(add_tabs_model(v@.skip(n as int), tabs as nat, filename@) == Seq::<
                        char,
                    >::empty());
                    assert(out@ + Seq::<char>::empty() =~= out@);
                }
                break;
            },
        }
    }
    string_from_chars(out.as_slice())
}

fn tok_is_kw(t: &Token, k: Keyword) -> (r: bool)
    ensures
        r == (t@ == TokenModel::Keyword(k)),
{
    match t {
        Token::Keyword(k2) => *k2 == k,
        _ => false,
    }
}

fn tok_is_sp(t: &Token, s: SpecialCharacter) -> (r: bool)
    ensures
        r == (t@ == TokenModel::SpecialCharacter(s)),
{
    match t {
        Token::SpecialCharacter(s2) => *s2 == s,
        _ => false,
    }
}

fn tok_ident<'a>(t: &'a Token) -> (r: Option<&'a String>)
    ensures
        match r {
            Some(s) => t@ == TokenModel::Identifier(s@),
            None => !(t@ is Identifier),
        },
{
    match t {
        Token::Identifier(s) => Some(s),
        _ => None,
    }
}

/// Whether the tokens have the shape of a callable declaration or call:
/// an identifier, an opening parenthesis, anything, a closing parenthesis.
pub open spec fn is_fn_shape(t: Seq<TokenModel>) -> bool {
    t.len() >= 3 && t[0] is Identifier && t[1] == TokenModel::SpecialCharacter(
        SpecialCharacter::OpenParenthesis,
    ) && t[t.len() - 1] == TokenModel::SpecialCharacter(SpecialCharacter::CloseParenthesis)
}

/// The declaration text a top-level line of a non-entry module adds to
/// the module's header: a signature for a callable declaration, an
/// externally linked `Value` for a `let` or `const` binding, nothing for
/// anything else. This is the sole mechanism by which a module's symbols
/// become visible to an importer.
pub open spec fn h_text(t: Seq<TokenModel>) -> Result<Seq<char>, CompileError> {
    if is_fn_shape(t) {
        match params_text(t.subrange(2, t.len() - 1)) {
            Ok(ps) => Ok("Value "@ + t[0]->Identifier_0 + "("@ + ps + ");"@),
            Err(e) => Err(e),
        }
    } else if t.len() >= 2 && t[0] == TokenModel::Keyword(Keyword::Let) && t[1] is Identifier {
        Ok(ext_linkage() + " Value "@ + t[1]->Identifier_0 + ";"@)
    } else if t.len() >= 2 && t[0] == TokenModel::Keyword(Keyword::Const) && t[1] is Identifier {
        Ok(ext_linkage() + " const Value "@ + t[1]->Identifier_0 + ";"@)
    } else {
        Ok(Seq::empty())
    }
}

/// Builds the header declaration for one top-level line of a non-entry
/// module, exactly as `h_text` describes.
pub fn match_h_code(tokens: &Vec<Token>) -> (r: Result<String, CompileError>)
    ensures
        match r {
            Ok(s) => h_text(tokens.deep_view()) == Ok::<Seq<char>, CompileError>(s@),
            Err(e) => h_text(tokens.deep_view()) == Err::<Seq<char>, CompileError>(e),
        },
{
    let ghost t = tokens.deep_view();
    let n = tokens.len();
    proof {
        assert(forall|i: int| 0 <= i < n ==> t[i] == #[trigger] tokens@[i].deep_view());
    }
    let mut out: Vec<char> = Vec::new();
    if n >= 3 && tok_ident(&tokens[0]).is_some() && tok_is_sp(
        &tokens[1],
        SpecialCharacter::OpenParenthesis,
    ) && tok_is_sp(&tokens[n - 1], SpecialCharacter::CloseParenthesis) {
        let f = tok_ident(&tokens[0]).unwrap();
        let ps = match generate_params(tokens, 2, n - 1) {
            Ok(ps) => ps,
            Err(e) => {
                proof {
                    assert(t.subrange(2, t.len() - 1) =~= tokens.deep_view().subrange(
                        2,
                        n as int - 1,
                    ));
                }
                return Err(e);
            },
        };
        proof {
            assert(t.subrange(2, t.len() - 1) =~= tokens.deep_view().subrange(2, n as int - 1));
        }
        push_str_chars("Value ", &mut out);
        push_str_chars(f.as_str(), &mut out);
        push_str_chars("(", &mut out);
        push_str_chars(ps.as_str(), &mut out);
        push_str_chars(");", &mut out);
        proof {
            assert(out@ =~= "Value "@ + t[0]->Identifier_0 + "("@ + ps@ + ");"@);
        }
        Ok(string_from_chars(out.as_slice()))
    } else if n >= 2 && tok_is_kw(&tokens[0], Keyword::Let) && tok_ident(&tokens[1]).is_some() {
        let v = tok_ident(&tokens[1]).unwrap();
        push_ext_linkage(&mut out);
        push_str_chars(" Value ", &mut out);
        push_str_chars(v.as_str(), &mut out);
        push_str_chars(";", &mut out);
        proof {
            assert(out@ =~= ext_linkage() + " Value "@ + t[1]->Identifier_0 + ";"@);
        }
        Ok(string_from_chars(out.as_slice()))
    } else if n >= 2 && tok_is_kw(&tokens[0], Keyword::Const) && tok_ident(&tokens[1]).is_some() {
        let v = tok_ident(&tokens[1]).unwrap();
        push_ext_linkage(&mut out);
        push_str_chars(" const Value ", &mut out);
        push_str_chars(v.as_str(), &mut out);
        push_str_chars(";", &mut out);
        proof {
            assert(out@ =~= ext_linkage() + " const Value "@ + t[1]->Identifier_0 + ";"@);
        }
        Ok(string_from_chars(out.as_slice()))
    } else {
        proof {
            assert(out@ =~= Seq::<char>::empty());
        }
        Ok(string_from_chars(out.as_slice()))
    }
}

/// What an import line resolves to: the inclusion of the named module's
/// declaration file. `None` for a line that is not an import; importing a
/// reserved module name — the entry module or the runtime module — is a
/// failure.
pub open spec fn import_text(t: Seq<TokenModel>) -> Result<Option<Seq<char>>, CompileError> {
    if t.len() == 2 && t[0] == TokenModel::Keyword(Keyword::Import) && t[1] is Identifier {
        let f = t[1]->Identifier_0;
        if f == "std"@ || f == "main"@ {
            Err(CompileError::ReservedModuleNameImported)
        } else {
            Ok(Some(inc_directive() + " \""@ + f + ".hpp\""@))
        }
    } else {
        Ok(None)
    }
}

/// Resolves an import line to the inclusion of the named module's
/// declaration file; `None` when the line is no import, and a failure
/// when the named module is reserved.
pub fn generate_imports(tokens: &Vec<Token>) -> (r: Result<Option<String>, CompileError>)
    ensures
        match r {
            Ok(Some(s)) => import_text(tokens.deep_view()) == Ok::<
                Option<Seq<char>>,
                CompileError,
            >(Some(s@)),
            Ok(None) => import_text(tokens.deep_view()) == Ok::<
                Option<Seq<char>>,
                CompileError,
            >(None),
            Err(e) => import_text(tokens.deep_view()) == Err::<Option<Seq<char>>, CompileError>(e),
        },
{
    let ghost t = tokens.deep_view();
    let n = tokens.len();
    proof {
        assert(forall|i: int| 0 <= i < n ==> t[i] == #[trigger] tokens@[i].deep_view());
    }
    if n == 2 && tok_is_kw(&tokens[0], Keyword::Import) && tok_ident(&tokens[1]).is_some() {
        let f = tok_ident(&tokens[1]).unwrap();
        if str_eq(f.as_str(), "std") || str_eq(f.as_str(), "main") {
            return Err(CompileError::ReservedModuleNameImported);
        }
        let mut out: Vec<char> = Vec::new();
        push_inc_directive(&mut out);
        push_str_chars(" \"", &mut out);
        push_str_chars(f.as_str(), &mut out);
        push_str_chars(".hpp\"", &mut out);
        proof {
            assert(out@ =~= inc_directive() + " \""@ + t[1]->Identifier_0 + ".hpp\""@);
        }
        Ok(Some(string_from_chars(out.as_slice())))
    } else {
        Ok(None)
    }
}

/// The position of the first occurrence of special character `sc` at or
/// after `j`, if any.
pub open spec fn find_sp(t: Seq<TokenModel>, j: nat, sc: SpecialCharacter) -> Option<int>
    decreases t.len() - j,
{
    if j >= t.len() {
        None
    } else if t[j as int] == TokenModel::SpecialCharacter(sc) {
        Some(j as int)
    } else {
        find_sp(t, j + 1, sc)
    }
}

/// The raw statement text for one line's tokens, before re-indentation.
/// `base` is the module's base name; statement shapes are tried in a
/// fixed order and the first that fits decides. Top-level declarations of
/// non-entry modules are namespaced to the file; a line no shape fits is
/// an `UnexpectedTokenSequence` failure, the error of last resort for
/// syntactically invalid input.
pub open spec fn stmt_code(t: Seq<TokenModel>, base: Seq<char>, tabs: nat) -> Result<
    Seq<char>,
    CompileError,
> {
    let nonmain = base != "main"@;
    let n = t.len() as int;
    if n == 0 {
        Ok(Seq::empty())
    } else if n == 1 && t[0] == TokenModel::Keyword(Keyword::Break) {
        Ok("break;"@)
    } else if n == 1 && t[0] == TokenModel::Keyword(Keyword::Continue) {
        Ok("continue;"@)
    } else if n == 2 && t[0] == TokenModel::Keyword(Keyword::Import) && t[1] is Identifier {
        // An import reaching statement generation comes after other
        // statements have begun.
        Err(CompileError::ImportNotAtTop)
    } else if t[0] == TokenModel::Keyword(Keyword::Return) && nonmain {
        match (if n == 1 {
            Ok("Value(nullptr)"@)
        } else {
            expr_text(t.skip(1))
        }) {
            Ok(e) => Ok("return "@ + e + ";"@),
            Err(er) => Err(er),
        }
    } else if n >= 4 && t[0] == TokenModel::Keyword(Keyword::Method) && t[1] is Identifier && t[2]
        == TokenModel::SpecialCharacter(SpecialCharacter::OpenParenthesis) && t[n - 1]
        == TokenModel::SpecialCharacter(SpecialCharacter::CloseParenthesis) && nonmain && tabs
        == 0 {
        match params_text(t.subrange(3, n - 1)) {
            Ok(ps) => Ok("Value "@ + base + "_"@ + t[1]->Identifier_0 + "("@ + ps + ") {"@),
            Err(er) => Err(er),
        }
    } else if is_fn_shape(t) && nonmain && tabs == 0 {
        match params_text(t.subrange(2, n - 1)) {
            Ok(ps) => Ok("Value "@ + base + "::"@ + t[0]->Identifier_0 + "("@ + ps + ") {"@),
            Err(er) => Err(er),
        }
    } else if n >= 6 && t[0] is Identifier && t[1] == TokenModel::SpecialCharacter(
        SpecialCharacter::Colon,
    ) && t[2] == TokenModel::SpecialCharacter(SpecialCharacter::Colon) && t[3] is Identifier && t[4]
        == TokenModel::SpecialCharacter(SpecialCharacter::OpenParenthesis) && t[n - 1]
        == TokenModel::SpecialCharacter(SpecialCharacter::CloseParenthesis) {
        match (if n == 6 {
            Ok(Seq::<char>::empty())
        } else {
            expr_text(t.subrange(5, n - 1))
        }) {
            Ok(a) => Ok(
                t[0]->Identifier_0 + "::"@ + t[3]->Identifier_0 + "("@ + a + ");"@,
            ),
            Err(er) => Err(er),
        }
    } else if n >= 5 && t[0] is Identifier && t[1] == TokenModel::SpecialCharacter(
        SpecialCharacter::Dot,
    ) && t[2] is Identifier && t[3] == TokenModel::SpecialCharacter(
        SpecialCharacter::OpenParenthesis,
    ) && t[n - 1] == TokenModel::SpecialCharacter(SpecialCharacter::CloseParenthesis) {
        match (if n == 5 {
            Ok(Seq::<char>::empty())
        } else {
            expr_text(t.subrange(4, n - 1))
        }) {
            Ok(a) => Ok(
                t[0]->Identifier_0 + "[\""@ + t[2]->Identifier_0 + "\"]("@ + a + ");"@,
            ),
            Err(er) => Err(er),
        }
    } else if is_fn_shape(t) && (t[0]->Identifier_0 == "print"@ || t[0]->Identifier_0
        == "exit"@) {
        match (if n == 3 {
            Ok(Seq::<char>::empty())
        } else {
            expr_text(t.subrange(2, n - 1))
        }) {
            Ok(a) => Ok("_"@ + t[0]->Identifier_0 + "("@ + a + ");"@),
            Err(er) => Err(er),
        }
    } else if n == 3 && t[0] == TokenModel::SpecialCharacter(SpecialCharacter::Plus) && t[1]
        == TokenModel::SpecialCharacter(SpecialCharacter::Plus) && t[2] is Identifier {
        Ok("++"@ + t[2]->Identifier_0 + ";"@)
    } else if n == 3 && t[0] is Identifier && t[1] == TokenModel::SpecialCharacter(
        SpecialCharacter::Plus,
    ) && t[2] == TokenModel::SpecialCharacter(SpecialCharacter::Plus) {
        Ok(t[0]->Identifier_0 + "++;"@)
    } else if n == 3 && t[0] == TokenModel::SpecialCharacter(SpecialCharacter::Minus) && t[1]
        == TokenModel::SpecialCharacter(SpecialCharacter::Minus) && t[2] is Identifier {
        Ok("--"@ + t[2]->Identifier_0 + ";"@)
    } else if n == 3 && t[0] is Identifier && t[1] == TokenModel::SpecialCharacter(
        SpecialCharacter::Minus,
    ) && t[2] == TokenModel::SpecialCharacter(SpecialCharacter::Minus) {
        Ok(t[0]->Identifier_0 + "--;"@)
    } else if n == 2 && t[0] == TokenModel::Keyword(Keyword::Let) && t[1] is Identifier && nonmain
        && tabs == 0 {
        Ok("Value "@ + base + "::"@ + t[1]->Identifier_0 + "(nullptr);"@)
    } else if n == 2 && t[0] == TokenModel::Keyword(Keyword::Let) && t[1] is Identifier {
        Ok("Value "@ + t[1]->Identifier_0 + "(nullptr);"@)
    } else if n >= 3 && t[0] == TokenModel::Keyword(Keyword::Let) && t[1] is Identifier && t[2]
        == TokenModel::SpecialCharacter(SpecialCharacter::Equals) && nonmain && tabs == 0 {
        match expr_text(t.skip(3)) {
            Ok(e) => Ok("Value "@ + base + "::"@ + t[1]->Identifier_0 + "("@ + e + ");"@),
            Err(er) => Err(er),
        }
    } else if n >= 3 && t[0] == TokenModel::Keyword(Keyword::Let) && t[1] is Identifier && t[2]
        == TokenModel::SpecialCharacter(SpecialCharacter::Equals) {
        match expr_text(t.skip(3)) {
            Ok(e) => Ok("Value "@ + t[1]->Identifier_0 + "("@ + e + ");"@),
            Err(er) => Err(er),
        }
    } else if n >= 3 && t[0] == TokenModel::Keyword(Keyword::Const) && t[1] is Identifier && t[2]
        == TokenModel::SpecialCharacter(SpecialCharacter::Equals) && nonmain && tabs == 0 {
        match expr_text(t.skip(3)) {
            Ok(e) => Ok(
                "const Value "@ + base + "::"@ + t[1]->Identifier_0 + "("@ + e + ");"@,
            ),
            Err(er) => Err(er),
        }
    } else if n >= 3 && t[0] == TokenModel::Keyword(Keyword::Const) && t[1] is Identifier && t[2]
        == TokenModel::SpecialCharacter(SpecialCharacter::Equals) {
        match expr_text(t.skip(3)) {
            Ok(e) => Ok("const Value "@ + t[1]->Identifier_0 + "("@ + e + ");"@),
            Err(er) => Err(er),
        }
    } else if n >= 2 && t[0] is Identifier && t[1] == TokenModel::SpecialCharacter(
        SpecialCharacter::Equals,
    ) {
        match expr_text(t.skip(2)) {
            Ok(e) => Ok(t[0]->Identifier_0 + " = "@ + e + ";"@),
            Err(er) => Err(er),
        }
    } else if n >= 3 && t[0] is Identifier && (t[1] == TokenModel::SpecialCharacter(
        SpecialCharacter::Plus,
    ) || t[1] == TokenModel::SpecialCharacter(SpecialCharacter::Minus) || t[1]
        == TokenModel::SpecialCharacter(SpecialCharacter::Asterisk) || t[1]
        == TokenModel::SpecialCharacter(SpecialCharacter::Slash)) && t[2]
        == TokenModel::SpecialCharacter(SpecialCharacter::Equals) {
        match expr_text(t.skip(3)) {
            Ok(e) => Ok(
                t[0]->Identifier_0 + " "@ + op_sign(t[1]->SpecialCharacter_0) + "= "@ + e
                    + ";"@,
            ),
            Err(er) => Err(er),
        }
    } else if n >= 5 && t[0] is Identifier && t[1] == TokenModel::SpecialCharacter(
        SpecialCharacter::Colon,
    ) && t[2] == TokenModel::SpecialCharacter(SpecialCharacter::Colon) && t[3] is Identifier && t[4]
        == TokenModel::SpecialCharacter(SpecialCharacter::Equals) {
        match expr_text(t.skip(5)) {
            Ok(e) => Ok(
                t[0]->Identifier_0 + "::"@ + t[3]->Identifier_0 + " = "@ + e + ";"@,
            ),
            Err(er) => Err(er),
        }
    } else if n == 2 && t[0] is Identifier && t[1] == TokenModel::SpecialCharacter(
        SpecialCharacter::OpenBracket,
    ) {
        Err(CompileError::MalformedArrayAssignment)
    } else if n >= 2 && t[0] is Identifier && t[1] == TokenModel::SpecialCharacter(
        SpecialCharacter::OpenBracket,
    ) {
        let rest = t.skip(2);
        match (find_sp(rest, 0, SpecialCharacter::CloseBracket), find_sp(
            rest,
            0,
            SpecialCharacter::Equals,
        )) {
            (Some(cb), Some(eq)) => if eq > cb {
                match expr_text(rest.take(cb)) {
                    Ok(ix) => match expr_text(rest.skip(eq + 1)) {
                        Ok(e) => Ok(
                            t[0]->Identifier_0 + "["@ + ix + "] = "@ + e + ";"@,
                        ),
                        Err(er) => Err(er),
                    },
                    Err(er) => Err(er),
                }
            } else {
                Err(CompileError::MalformedArrayAssignment)
            },
            _ => Err(CompileError::MalformedArrayAssignment),
        }
    } else if t[0] == TokenModel::Keyword(Keyword::If) {
        match expr_text(t.skip(1)) {
            Ok(c) => Ok("if ("@ + c + ") {"@),
            Err(er) => Err(er),
        }
    } else if n == 1 && t[0] == TokenModel::Keyword(Keyword::Else) {
        Ok("else {"@)
    } else if n >= 2 && t[0] == TokenModel::Keyword(Keyword::Else) && t[1] == TokenModel::Keyword(
        Keyword::If,
    ) {
        match expr_text(t.skip(2)) {
            Ok(c) => Ok("else if ("@ + c + ") {"@),
            Err(er) => Err(er),
        }
    } else if n == 1 && t[0] == TokenModel::Keyword(Keyword::Loop) {
        Ok("while (true) {"@)
    } else if n >= 3 && t[0] == TokenModel::Keyword(Keyword::Loop) && t[1] is Identifier && t[2]
        == TokenModel::Keyword(Keyword::In) {
        match iter_text(t.skip(3)) {
            Ok(it) => Ok("for (const Value& "@ + t[1]->Identifier_0 + " : "@ + it + ") {"@),
            Err(er) => Err(er),
        }
    } else if t[0] == TokenModel::Keyword(Keyword::Loop) {
        match expr_text(t.skip(1)) {
            Ok(e) => Ok("while ("@ + e + ") {"@),
            Err(er) => Err(er),
        }
    } else {
        Err(CompileError::UnexpectedTokenSequence)
    }
}

/// The definition text for one line: its raw statement text, re-indented
/// for its depth.
pub open spec fn c_text(t: Seq<TokenModel>, fname: Seq<char>, tabs: nat) -> Result<
    Seq<char>,
    CompileError,
> {
    match stmt_code(t, trim_ly(fname), tabs) {
        Ok(c) => Ok(add_tabs_model(c, tabs, trim_ly(fname))),
        Err(e) => Err(e),
    }
}

fn find_special(tokens: &Vec<Token>, from: usize, sc: SpecialCharacter) -> (r: Option<usize>)
    requires
        from <= tokens@.len(),
    ensures
        match r {
            Some(p) => from <= p < tokens@.len() && find_sp(
                tokens.deep_view().skip(from as int),
                0,
                sc,
            ) == Some(p - from),
            None => find_sp(tokens.deep_view().skip(from as int), 0, sc) is None,
        },
{
    let ghost rest = tokens.deep_view().skip(from as int);
    let n = tokens.len();
    let mut p = from;
    while p < n
        invariant
            from <= p <= n,
            n == tokens@.len(),
            rest == tokens.deep_view().skip(from as int),
            find_sp(rest, 0, sc) == find_sp(rest, (p - from) as nat, sc),
        decreases n - p,
    {
        proof {
            assert(rest[p - from] == tokens@[p as int].deep_view());
        }
        if tok_is_sp(&tokens[p], sc) {
            proof {
                assert(find_sp(rest, (p - from) as nat, sc) == Some(p - from));
            }
            return Some(p);
        }
        p = p + 1;
    }
    proof {
        assert(find_sp(rest, (p - from) as nat, sc) is None);
    }
    None
}

/// Builds the definition text for one line's tokens, exactly as `c_text`
/// describes: the first statement shape that fits decides, a line no
/// shape fits fails with `UnexpectedTokenSequence`, and the text is
/// re-indented for its depth.
#[verifier::rlimit(100)]
pub fn match_c_code(tokens: &Vec<Token>, filename: &str, tabs: usize) -> (r: Result<
    String,
    CompileError,
>)
    ensures
        match r {
            Ok(s) => c_text(tokens.deep_view(), filename@, tabs as nat) == Ok::<
                Seq<char>,
                CompileError,
            >(s@),
            Err(e) => c_text(tokens.deep_view(), filename@, tabs as nat) == Err::<
                Seq<char>,
                CompileError,
            >(e),
        },
{
    let ghost t = tokens.deep_view();
    let base = trim_ly_str(filename);
    let nonmain = !str_eq(base, "main");
    let n = tokens.len();
    proof {
        assert(forall|i: int| 0 <= i < n ==> t[i] == #[trigger] tokens@[i].deep_view());
    }
    let mut raw: Vec<char> = Vec::new();

    if n == 0 {
        // An empty line emits nothing.
    } else if n == 1 && tok_is_kw(&tokens[0], Keyword::Break) {
        push_str_chars("break;", &mut raw);
    } else if n == 1 && tok_is_kw(&tokens[0], Keyword::Continue) {
        push_str_chars("continue;", &mut raw);
    } else if n == 2 && tok_is_kw(&tokens[0], Keyword::Import) && tok_ident(&tokens[1]).is_some() {
        return Err(CompileError::ImportNotAtTop);
    } else if tok_is_kw(&tokens[0], Keyword::Return) && nonmain {
        push_str_chars("return ", &mut raw);
        if n == 1 {
            push_str_chars("Value(nullptr)", &mut raw);
        } else {
            proof {
                assert(t.skip(1) =~= t.subrange(1, n as int));
            }
            match generate_expression(tokens, 1, n) {
                Ok(e) => push_str_chars(e.as_str(), &mut raw),
                Err(er) => {
                    return Err(er);
                },
            }
        }
        push_str_chars(";", &mut raw);
    } else if n >= 4 && tok_is_kw(&tokens[0], Keyword::Method) && tok_ident(&tokens[1]).is_some()
        && tok_is_sp(&tokens[2], SpecialCharacter::OpenParenthesis) && tok_is_sp(
        &tokens[n - 1],
        SpecialCharacter::CloseParenthesis,
    ) && nonmain && tabs == 0 {
        proof {
            assert(t.subrange(3, n as int - 1) =~= tokens.deep_view().subrange(3, n as int - 1));
        }
        let ps = match generate_params(tokens, 3, n - 1) {
            Ok(ps) => ps,
            Err(er) => {
                return Err(er);
            },
        };
        let m = tok_ident(&tokens[1]).unwrap();
        push_str_chars("Value ", &mut raw);
        push_str_chars(base, &mut raw);
        push_str_chars("_", &mut raw);
        push_str_chars(m.as_str(), &mut raw);
        push_str_chars("(", &mut raw);
        push_str_chars(ps.as_str(), &mut raw);
        push_str_chars(") {", &mut raw);
    } else if n >= 3 && tok_ident(&tokens[0]).is_some() && tok_is_sp(
        &tokens[1],
        SpecialCharacter::OpenParenthesis,
    ) && tok_is_sp(&tokens[n - 1], SpecialCharacter::CloseParenthesis) && nonmain && tabs == 0 {
        proof {
            assert(is_fn_shape(t));
        }
        let ps = match generate_params(tokens, 2, n - 1) {
            Ok(ps) => ps,
            Err(er) => {
                return Err(er);
            },
        };
        let f = tok_ident(&tokens[0]).unwrap();
        push_str_chars("Value ", &mut raw);
        push_str_chars(base, &mut raw);
        push_str_chars("::", &mut raw);
        push_str_chars(f.as_str(), &mut raw);
        push_str_chars("(", &mut raw);
        push_str_chars(ps.as_str(), &mut raw);
        push_str_chars(") {", &mut raw);
    } else if n >= 6 && tok_ident(&tokens[0]).is_some() && tok_is_sp(
        &tokens[1],
        SpecialCharacter::Colon,
    ) && tok_is_sp(&tokens[2], SpecialCharacter::Colon) && tok_ident(&tokens[3]).is_some()
        && tok_is_sp(&tokens[4], SpecialCharacter::OpenParenthesis) && tok_is_sp(
        &tokens[n - 1],
        SpecialCharacter::CloseParenthesis,
    ) {
        let file = tok_ident(&tokens[0]).unwrap();
        let func = tok_ident(&tokens[3]).unwrap();
        push_str_chars(file.as_str(), &mut raw);
        push_str_chars("::", &mut raw);
        push_str_chars(func.as_str(), &mut raw);
        push_str_chars("(", &mut raw);
        if n > 6 {
            match generate_expression(tokens, 5, n - 1) {
                Ok(a) => push_str_chars(a.as_str(), &mut raw),
                Err(er) => {
                    return Err(er);
                },
            }
        }
        push_str_chars(");", &mut raw);
    } else if n >= 5 && tok_ident(&tokens[0]).is_some() && tok_is_sp(
        &tokens[1],
        SpecialCharacter::Dot,
    ) && tok_ident(&tokens[2]).is_some() && tok_is_sp(
        &tokens[3],
        SpecialCharacter::OpenParenthesis,
    ) && tok_is_sp(&tokens[n - 1], SpecialCharacter::CloseParenthesis) {
        let obj = tok_ident(&tokens[0]).unwrap();
        let m = tok_ident(&tokens[2]).unwrap();
        push_str_chars(obj.as_str(), &mut raw);
        push_str_chars("[\"", &mut raw);
        push_str_chars(m.as_str(), &mut raw);
        push_str_chars("\"](", &mut raw);
        if n > 5 {
            match generate_expression(tokens, 4, n - 1) {
                Ok(a) => push_str_chars(a.as_str(), &mut raw),
                Err(er) => {
                    return Err(er);
                },
            }
        }
        push_str_chars(");", &mut raw);
    } else if n >= 3 && tok_ident(&tokens[0]).is_some() && tok_is_sp(
        &tokens[1],
        SpecialCharacter::OpenParenthesis,
    ) && tok_is_sp(&tokens[n - 1], SpecialCharacter::CloseParenthesis) && (str_eq(
        tok_ident(&tokens[0]).unwrap().as_str(),
        "print",
    ) || str_eq(tok_ident(&tokens[0]).unwrap().as_str(), "exit")) {
        proof {
            assert(is_fn_shape(t));
        }
        let f = tok_ident(&tokens[0]).unwrap();
        push_str_chars("_", &mut raw);
        push_str_chars(f.as_str(), &mut raw);
        push_str_chars("(", &mut raw);
        if n > 3 {
            match generate_expression(tokens, 2, n - 1) {
                Ok(a) => push_str_chars(a.as_str(), &mut raw),
                Err(er) => {
                    return Err(er);
                },
            }
        }
        push_str_chars(");", &mut raw);
    } else if n == 3 && tok_is_sp(&tokens[0], SpecialCharacter::Plus) && tok_is_sp(
        &tokens[1],
        SpecialCharacter::Plus,
    ) && tok_ident(&tokens[2]).is_some() {
        let v = tok_ident(&tokens[2]).unwrap();
        push_str_chars("++", &mut raw);
        push_str_chars(v.as_str(), &mut raw);
        push_str_chars(";", &mut raw);
    } else if n == 3 && tok_ident(&tokens[0]).is_some() && tok_is_sp(
        &tokens[1],
        SpecialCharacter::Plus,
    ) && tok_is_sp(&tokens[2], SpecialCharacter::Plus) {
        let v = tok_ident(&tokens[0]).unwrap();
        push_str_chars(v.as_str(), &mut raw);
        push_str_chars("++;", &mut raw);
    } else if n == 3 && tok_is_sp(&tokens[0], SpecialCharacter::Minus) && tok_is_sp(
        &tokens[1],
        SpecialCharacter::Minus,
    ) && tok_ident(&tokens[2]).is_some() {
        let v = tok_ident(&tokens[2]).unwrap();
        push_str_chars("--", &mut raw);
        push_str_chars(v.as_str(), &mut raw);
        push_str_chars(";", &mut raw);
    } else if n == 3 && tok_ident(&tokens[0]).is_some() && tok_is_sp(
        &tokens[1],
        SpecialCharacter::Minus,
    ) && tok_is_sp(&tokens[2], SpecialCharacter::Minus) {
        let v = tok_ident(&tokens[0]).unwrap();
        push_str_chars(v.as_str(), &mut raw);
        push_str_chars("--;", &mut raw);
    } else if n == 2 && tok_is_kw(&tokens[0], Keyword::Let) && tok_ident(&tokens[1]).is_some()
        && nonmain && tabs == 0 {
        let v = tok_ident(&tokens[1]).unwrap();
        push_str_chars("Value ", &mut raw);
        push_str_chars(base, &mut raw);
        push_str_chars("::", &mut raw);
        push_str_chars(v.as_str(), &mut raw);
        push_str_chars("(nullptr);", &mut raw);
    } else if n == 2 && tok_is_kw(&tokens[0], Keyword::Let) && tok_ident(&tokens[1]).is_some() {
        let v = tok_ident(&tokens[1]).unwrap();
        push_str_chars("Value ", &mut raw);
        push_str_chars(v.as_str(), &mut raw);
        push_str_chars("(nullptr);", &mut raw);
    } else if n >= 3 && tok_is_kw(&tokens[0], Keyword::Let) && tok_ident(&tokens[1]).is_some()
        && tok_is_sp(&tokens[2], SpecialCharacter::Equals) && nonmain && tabs == 0 {
        proof {
            assert(t.skip(3) =~= t.subrange(3, n as int));
        }
        let e = match generate_expression(tokens, 3, n) {
            Ok(e) => e,
            Err(er) => {
                return Err(er);
            },
        };
        let v = tok_ident(&tokens[1]).unwrap();
        push_str_chars("Value ", &mut raw);
        push_str_chars(base, &mut raw);
        push_str_chars("::", &mut raw);
        push_str_chars(v.as_str(), &mut raw);
        push_str_chars("(", &mut raw);
        push_str_chars(e.as_str(), &mut raw);
        push_str_chars(");", &mut raw);
    } else if n >= 3 && tok_is_kw(&tokens[0], Keyword::Let) && tok_ident(&tokens[1]).is_some()
        && tok_is_sp(&tokens[2], SpecialCharacter::Equals) {
        proof {
            assert(t.skip(3) =~= t.subrange(3, n as int));
        }
        let e = match generate_expression(tokens, 3, n) {
            Ok(e) => e,
            Err(er) => {
                return Err(er);
            },
        };
        let v = tok_ident(&tokens[1]).unwrap();
        push_str_chars("Value ", &mut raw);
        push_str_chars(v.as_str(), &mut raw);
        push_str_chars("(", &mut raw);
        push_str_chars(e.as_str(), &mut raw);
        push_str_chars(");", &mut raw);
    } else if n >= 3 && tok_is_kw(&tokens[0], Keyword::Const) && tok_ident(&tokens[1]).is_some()
        && tok_is_sp(&tokens[2], SpecialCharacter::Equals) && nonmain && tabs == 0 {
        proof {
            assert(t.skip(3) =~= t.subrange(3, n as int));
        }
        let e = match generate_expression(tokens, 3, n) {
            Ok(e) => e,
            Err(er) => {
                return Err(er);
            },
        };
        let v = tok_ident(&tokens[1]).unwrap();
        push_str_chars("const Value ", &mut raw);
        push_str_chars(base, &mut raw);
        push_str_chars("::", &mut raw);
        push_str_chars(v.as_str(), &mut raw);
        push_str_chars("(", &mut raw);
        push_str_chars(e.as_str(), &mut raw);
        push_str_chars(");", &mut raw);
    } else if n >= 3 && tok_is_kw(&tokens[0], Keyword::Const) && tok_ident(&tokens[1]).is_some()
        && tok_is_sp(&tokens[2], SpecialCharacter::Equals) {
        proof {
            assert(t.skip(3) =~= t.subrange(3, n as int));
        }
        let e = match generate_expression(tokens, 3, n) {
            Ok(e) => e,
            Err(er) => {
                return Err(er);
            },
        };
        let v = tok_ident(&tokens[1]).unwrap();
        push_str_chars("const Value ", &mut raw);
        push_str_chars(v.as_str(), &mut raw);
        push_str_chars("(", &mut raw);
        push_str_chars(e.as_str(), &mut raw);
        push_str_chars(");", &mut raw);
    } else if n >= 2 && tok_ident(&tokens[0]).is_some() && tok_is_sp(
        &tokens[1],
        SpecialCharacter::Equals,
    ) {
        proof {
            assert(t.skip(2) =~= t.subrange(2, n as int));
        }
        let e = match generate_expression(tokens, 2, n) {
            Ok(e) => e,
            Err(er) => {
                return Err(er);
            },
        };
        let v = tok_ident(&tokens[0]).unwrap();
        push_str_chars(v.as_str(), &mut raw);
        push_str_chars(" = ", &mut raw);
        push_str_chars(e.as_str(), &mut raw);
        push_str_chars(";", &mut raw);
    } else if n >= 3 && tok_ident(&tokens[0]).is_some() && (tok_is_sp(
        &tokens[1],
        SpecialCharacter::Plus,
    ) || tok_is_sp(&tokens[1], SpecialCharacter::Minus) || tok_is_sp(
        &tokens[1],
        SpecialCharacter::Asterisk,
    ) || tok_is_sp(&tokens[1], SpecialCharacter::Slash)) && tok_is_sp(
        &tokens[2],
        SpecialCharacter::Equals,
    ) {
        proof {
            assert(t.skip(3) =~= t.subrange(3, n as int));
        }
        let e = match generate_expression(tokens, 3, n) {
            Ok(e) => e,
            Err(er) => {
                return Err(er);
            },
        };
        let sgn = if tok_is_sp(&tokens[1], SpecialCharacter::Plus) {
            "+"
        } else if tok_is_sp(&tokens[1], SpecialCharacter::Minus) {
            "-"
        } else if tok_is_sp(&tokens[1], SpecialCharacter::Asterisk) {
            "*"
        } else {
            "/"
        };
        proof {
            assert(sgn@ == op_sign(t[1]->SpecialCharacter_0));
        }
        let v = tok_ident(&tokens[0]).unwrap();
        push_str_chars(v.as_str(), &mut raw);
        push_str_chars(" ", &mut raw);
        push_str_chars(sgn, &mut raw);
        push_str_chars("= ", &mut raw);
        push_str_chars(e.as_str(), &mut raw);
        push_str_chars(";", &mut raw);
    } else if n >= 5 && tok_ident(&tokens[0]).is_some() && tok_is_sp(
        &tokens[1],
        SpecialCharacter::Colon,
    ) && tok_is_sp(&tokens[2], SpecialCharacter::Colon) && tok_ident(&tokens[3]).is_some()
        && tok_is_sp(&tokens[4], SpecialCharacter::Equals) {
        proof {
            assert(t.skip(5) =~= t.subrange(5, n as int));
        }
        let e = match generate_expression(tokens, 5, n) {
            Ok(e) => e,
            Err(er) => {
                return Err(er);
            },
        };
        let file = tok_ident(&tokens[0]).unwrap();
        let v = tok_ident(&tokens[3]).unwrap();
        push_str_chars(file.as_str(), &mut raw);
        push_str_chars("::", &mut raw);
        push_str_chars(v.as_str(), &mut raw);
        push_str_chars(" = ", &mut raw);
        push_str_chars(e.as_str(), &mut raw);
        push_str_chars(";", &mut raw);
    } else if n == 2 && tok_ident(&tokens[0]).is_some() && tok_is_sp(
        &tokens[1],
        SpecialCharacter::OpenBracket,
    ) {
        return Err(CompileError::MalformedArrayAssignment);
    } else if n >= 2 && tok_ident(&tokens[0]).is_some() && tok_is_sp(
        &tokens[1],
        SpecialCharacter::OpenBracket,
    ) {
        let ghost rest = t.skip(2);
        let cb = find_special(tokens, 2, SpecialCharacter::CloseBracket);
        let eq = find_special(tokens, 2, SpecialCharacter::Equals);
        match (cb, eq) {
            (Some(cbp), Some(eqp)) => {
                if eqp > cbp {
                    proof {
                        assert(rest.take(cbp - 2) =~= t.subrange(2, cbp as int));
                        assert(rest.skip(eqp - 2 + 1) =~= t.subrange(eqp as int + 1, n as int));
                    }
                    let ix = match generate_expression(tokens, 2, cbp) {
                        Ok(ix) => ix,
                        Err(er) => {
                            return Err(er);
                        },
                    };
                    let e = match generate_expression(tokens, eqp + 1, n) {
                        Ok(e) => e,
                        Err(er) => {
                            return Err(er);
                        },
                    };
                    let v = tok_ident(&tokens[0]).unwrap();
                    push_str_chars(v.as_str(), &mut raw);
                    push_str_chars("[", &mut raw);
                    push_str_chars(ix.as_str(), &mut raw);
                    push_str_chars("] = ", &mut raw);
                    push_str_chars(e.as_str(), &mut raw);
                    push_str_chars(";", &mut raw);
                } else {
                    return Err(CompileError::MalformedArrayAssignment);
                }
            },
            _ => {
                return Err(CompileError::MalformedArrayAssignment);
            },
        }
    } else if tok_is_kw(&tokens[0], Keyword::If) {
        proof {
            assert(t.skip(1) =~= t.subrange(1, n as int));
        }
        let c = match generate_expression(tokens, 1, n) {
            Ok(c) => c,
            Err(er) => {
                return Err(er);
            },
        };
        push_str_chars("if (", &mut raw);
        push_str_chars(c.as_str(), &mut raw);
        push_str_chars(") {", &mut raw);
    } else if n == 1 && tok_is_kw(&tokens[0], Keyword::Else) {
        push_str_chars("else {", &mut raw);
    } else if n >= 2 && tok_is_kw(&tokens[0], Keyword::Else) && tok_is_kw(&tokens[1], Keyword::If) {
        proof {
            assert(t.skip(2) =~= t.subrange(2, n as int));
        }
        let c = match generate_expression(tokens, 2, n) {
            Ok(c) => c,
            Err(er) => {
                return Err(er);
            },
        };
        push_str_chars("else if (", &mut raw);
        push_str_chars(c.as_str(), &mut raw);
        push_str_chars(") {", &mut raw);
    } else if n == 1 && tok_is_kw(&tokens[0], Keyword::Loop) {
        push_str_chars("while (true) {", &mut raw);
    } else if n >= 3 && tok_is_kw(&tokens[0], Keyword::Loop) && tok_ident(&tokens[1]).is_some()
        && tok_is_kw(&tokens[2], Keyword::In) {
        proof {
            assert(t.skip(3) =~= t.subrange(3, n as int));
        }
        let it = match generate_iterator(tokens, 3, n) {
            Ok(it) => it,
            Err(er) => {
                return Err(er);
            },
        };
        let v = tok_ident(&tokens[1]).unwrap();
        push_str_chars("for (const Value& ", &mut raw);
        push_str_chars(v.as_str(), &mut raw);
        push_str_chars(" : ", &mut raw);
        push_str_chars(it.as_str(), &mut raw);
        push_str_chars(") {", &mut raw);
    } else if tok_is_kw(&tokens[0], Keyword::Loop) {
        proof {
            assert(t.skip(1) =~= t.subrange(1, n as int));
        }
        let e = match generate_expression(tokens, 1, n) {
            Ok(e) => e,
            Err(er) => {
                return Err(er);
            },
        };
        push_str_chars("while (", &mut raw);
        push_str_chars(e.as_str(), &mut raw);
        push_str_chars(") {", &mut raw);
    } else {
        return Err(CompileError::UnexpectedTokenSequence);
    }

    proof {
        assert(stmt_code(t, trim_ly(filename@), tabs as nat) matches Ok(c) && raw@ =~= c);
    }
    let code = string_from_chars(raw.as_slice());
    Ok(add_tabs_after_newlines(code.as_str(), tabs, base))
}

/// Whether the line declares a method that the module records for the
/// dispatch table: a `method` declaration at depth zero of a non-entry
/// file.
pub open spec fn is_method_decl(t: Seq<TokenModel>, fname: Seq<char>, tabs: nat) -> bool {
    let n = t.len() as int;
    n >= 4 && t[0] == TokenModel::Keyword(Keyword::Method) && t[1] is Identifier && t[2]
        == TokenModel::SpecialCharacter(SpecialCharacter::OpenParenthesis) && t[n - 1]
        == TokenModel::SpecialCharacter(SpecialCharacter::CloseParenthesis) && trim_ly(fname)
        != "main"@ && tabs == 0
}

/// What a method declaration records: its name, its arity, and the text
/// that forwards that many arguments positionally.
pub open spec fn method_of(t: Seq<TokenModel>) -> MethodModel {
    let n = t.len() as int;
    let ar = params_arity(t.subrange(3, n - 1));
    MethodModel {
        method: t[1]->Identifier_0,
        args_str: args_fwd(ar as nat),
        num_params: ar,
    }
}

/// What one line generates: any scope-closing text for a dedent, then the
/// line's definition text; and its header declaration, which only a
/// top-level line of a non-entry module has.
pub open spec fn gen_result(
    t: Seq<TokenModel>,
    fname: Seq<char>,
    tabs: nat,
    last: nat,
) -> Result<(Seq<char>, Seq<char>), CompileError> {
    match c_text(t, fname, tabs) {
        Err(e) => Err(e),
        Ok(c) => match (if is_entry(fname) || tabs > 0 {
            Ok(Seq::<char>::empty())
        } else {
            h_text(t)
        }) {
            Err(e) => Err(e),
            Ok(h) => Ok((scope_close(fname, tabs, last) + c, h)),
        },
    }
}

/// Generates one line of file `fname`: the definition text (scope
/// closings for a dedent, then the statement) and the declaration text,
/// exactly as `gen_result` describes. A method declaration at depth zero
/// of a non-entry file is additionally recorded in `methods` with its
/// arity and forwarding text; on failure `methods` is left unchanged.
pub fn generate(
    tokens: &Vec<Token>,
    filename: &str,
    tabs: usize,
    last_tabs: usize,
    methods: &mut Vec<Method>,
) -> (r: Result<(String, String), CompileError>)
    ensures
        match r {
            Ok(p) => gen_result(tokens.deep_view(), filename@, tabs as nat, last_tabs as nat)
                == Ok::<(Seq<char>, Seq<char>), CompileError>((p.0@, p.1@)) && (if is_method_decl(
                tokens.deep_view(),
                filename@,
                tabs as nat,
            ) {
                final(methods).deep_view() == old(methods).deep_view().push(
                    method_of(tokens.deep_view()),
                )
            } else {
                final(methods).deep_view() == old(methods).deep_view()
            }),
            Err(e) => gen_result(tokens.deep_view(), filename@, tabs as nat, last_tabs as nat)
                == Err::<(Seq<char>, Seq<char>), CompileError>(e) && final(methods).deep_view()
                == old(methods).deep_view(),
        },
{
    let ghost t = tokens.deep_view();
    let c = match match_c_code(tokens, filename, tabs) {
        Ok(c) => c,
        Err(e) => {
            return Err(e);
        },
    };
    let entry = str_eq(filename, "main.ly");
    let h = if entry || tabs > 0 {
        String::new()
    } else {
        match match_h_code(tokens) {
            Ok(h) => h,
            Err(e) => {
                return Err(e);
            },
        }
    };
    let mut out: Vec<char> = Vec::new();
    push_scope_close(filename, tabs, last_tabs, &mut out);
    push_str_chars(c.as_str(), &mut out);

    // Record a method declaration for the registration block.
    let n = tokens.len();
    proof {
        assert(forall|i: int| 0 <= i < n ==> t[i] == #[trigger] tokens@[i].deep_view());
    }
    if n >= 4 && tok_is_kw(&tokens[0], Keyword::Method) && tok_ident(&tokens[1]).is_some()
        && tok_is_sp(&tokens[2], SpecialCharacter::OpenParenthesis) && tok_is_sp(
        &tokens[n - 1],
        SpecialCharacter::CloseParenthesis,
    ) && !str_eq(trim_ly_str(filename), "main") && tabs == 0 {
        match generate_params_counted(tokens, 3, n - 1) {
            Ok((_, arity)) => {
                let args_str = generate_args(arity);
                let name = tok_ident(&tokens[1]).unwrap().clone();
                let ghost before = methods.deep_view();
                let m = Method { method: name, args_str, num_params: arity };
                proof {
                    assert(m@ == method_of(t));
                }
                methods.push(m);
                proof {
                    assert(methods.deep_view() =~= before.push(method_of(t)));
                }
            },
            Err(_) => {
                // The statement text already validated the parameter run.
                proof {
                    assert(t.subrange(3, n as int - 1) =~= tokens.deep_view().subrange(
                        3,
                        n as int - 1,
                    ));
                    assert(false);
                }
                return Err(CompileError::UnexpectedTokenSequence);
            },
        }
    }
    Ok((string_from_chars(out.as_slice()), h))
}

} // verus!

//! The module emitter: one source file's lines in, its definition text
//! and (for non-entry modules) its declaration text out. It writes the
//! inclusion lines, resolves the leading import run, threads the scope
//! state through every line, closes whatever is still open at end of
//! file, and ends the module with the entry point's closing brace or with
//! the registration block that populates the dispatch table.

use vstd::prelude::*;

use crate::errors::CompileError;
use crate::generator::{
    gen_result, generate, generate_imports, import_text, inc_directive, is_entry, is_method_decl,
    method_of, push_inc_directive, push_scope_close, scope_close,
};
use crate::lexer::{get_tokens, lex_depth, lex_from};
use crate::text::{
    dec_chars, dec_digits, push_all, push_str_chars, str_eq, string_from_chars, trim_ly,
    trim_ly_str,
};
use crate::tokens::{Method, MethodModel};

verus! {

/// The registration call emitted for one collected method: it stores the
/// method's name against a native callable that first checks the argument
/// count against the declared arity — a mismatch raises an error naming
/// the method and the expected count — and then forwards the arguments
/// positionally to the flat function of the module named `base`.
pub open spec fn registration_text(base: Seq<char>, m: MethodModel) -> Seq<char> {
    "Value::register_method(\n            \""@ + m.method
        + "\", [](const std::vector<Value>& args) -> Value {\n                if (args.size() != "@
        + dec_digits(m.num_params as nat)
        + ")\n                    throw std::runtime_error(\""@ + m.method + " expects "@
        + dec_digits(m.num_params as nat) + " args\");\n                return "@ + base + "_"@
        + m.method + "("@ + m.args_str + ");\n            });\n"@
}

/// The registration calls for all collected methods, in collection order.
pub open spec fn registration_all(base: Seq<char>, ms: Seq<MethodModel>) -> Seq<char>
    decreases ms.len(),
{
    if ms.len() == 0 {
        Seq::empty()
    } else {
        registration_text(base, ms[0]) + registration_all(base, ms.drop_first())
    }
}

/// The whole registration block a non-entry module ends with: a static
/// initializer that runs before `main` and registers every collected
/// method.
pub open spec fn registration_block(base: Seq<char>, ms: Seq<MethodModel>) -> Seq<char> {
    "\n[[maybe_unused]] static bool _ = []() {\n"@ + registration_all(base, ms)
        + "return true;\n}();"@
}

proof fn lemma_registration_all_snoc(base: Seq<char>, ms: Seq<MethodModel>, i: int)
    requires
        0 <= i < ms.len(),
    ensures
        registration_all(base, ms.take(i + 1)) == registration_all(base, ms.take(i))
            + registration_text(base, ms[i]),
    decreases i,
{
    if i == 0 {
        assert(ms.take(1)[0] == ms[0]);
        assert(ms.take(1).drop_first() =~= Seq::<MethodModel>::empty());
        assert(ms.take(0) =~= Seq::<MethodModel>::empty());
        assert(registration_all(base, ms.take(1)) == registration_text(base, ms.take(1)[0])
            + registration_all(base, ms.take(1).drop_first()));
        assert(registration_all(base, Seq::<MethodModel>::empty()) == Seq::<char>::empty());
        assert(registration_text(base, ms[0]) + Seq::<char>::empty() =~= registration_text(
            base,
            ms[0],
        ));
        assert(Seq::<char>::empty() + registration_text(base, ms[0]) =~= registration_text(
            base,
            ms[0],
        ));
    } else {
        let tail = ms.drop_first();
        lemma_registration_all_snoc(base, tail, i - 1);
        assert(ms.take(i + 1).drop_first() =~= tail.take(i));
        assert(ms.take(i).drop_first() =~= tail.take(i - 1));
        assert(ms.take(i + 1)[0] == ms[0]);
        assert(ms.take(i)[0] == ms[0]);
        assert(tail[i - 1] == ms[i]);
        assert(registration_all(base, ms.take(i + 1)) == registration_text(base, ms[0])
            + registration_all(base, tail.take(i)));
        assert(registration_all(base, ms.take(i)) == registration_text(base, ms[0])
            + registration_all(base, tail.take(i - 1)));
        assert(registration_all(base, tail.take(i)) == registration_all(base, tail.take(i - 1))
            + registration_text(base, ms[i]));
        assert(registration_text(base, ms[0]) + (registration_all(base, tail.take(i - 1))
            + registration_text(base, ms[i])) =~= (registration_text(base, ms[0])
            + registration_all(base, tail.take(i - 1))) + registration_text(base, ms[i]));
    }
}

/// Builds the registration block of module `base` for the collected
/// methods, exactly as `registration_block` describes.
pub fn write_ending(base: &str, methods: &Vec<Method>) -> (r: String)
    ensures
        r@ == registration_block(base@, methods.deep_view()),
{
    let ghost ms = methods.deep_view();
    let mut out: Vec<char> = Vec::new();
    push_str_chars("\n[[maybe_unused]] static bool _ = []() {\n", &mut out);
    let ghost header = out@;
    let n = methods.len();
    proof {
        assert(ms.take(0) =~= Seq::<MethodModel>::empty());
        assert(header + Seq::<char>::empty() =~= header);
    }
    let mut i: usize = 0;
    while i < n
        invariant
            i <= n,
            n == ms.len(),
            ms == methods.deep_view(),
            out@ == header + registration_all(base@, ms.take(i as int)),
        decreases n - i,
    {
        let ghost before = out@;
        proof {
            assert(ms[i as int] == methods@[i as int].deep_view());
        }
        let m = &methods[i];
        let d = dec_chars(m.num_params);
        push_str_chars("Value::register_method(\n            \"", &mut out);
        push_str_chars(m.method.as_str(), &mut out);
        push_str_chars(
            "\", [](const std::vector<Value>& args) -> Value {\n                if (args.size() != ",
            &mut out,
        );
        push_all(&d, &mut out);
        push_str_chars(")\n                    throw std::runtime_error(\"", &mut out);
        push_str_chars(m.method.as_str(), &mut out);
        push_str_chars(" expects ", &mut out);
        push_all(&d, &mut out);
        push_str_chars(" args\");\n                return ", &mut out);
        push_str_chars(base, &mut out);
        push_str_chars("_", &mut out);
        push_str_chars(m.method.as_str(), &mut out);
        push_str_chars("(", &mut out);
        push_str_chars(m.args_str.as_str(), &mut out);
        push_str_chars(");\n            });\n", &mut out);
        proof {
            assert(out@ =~= before + registration_text(base@, ms[i as int]));
            lemma_registration_all_snoc(base@, ms, i as int);
        }
        i = i + 1;
    }
    push_str_chars("return true;\n}();", &mut out);
    proof {
        assert(ms.take(n as int) =~= ms);
        assert(out@ =~= registration_block(base@, ms));
    }
    string_from_chars(out.as_slice())
}

/// The inclusion lines a module's definition file starts with: the
/// runtime's declaration file for the entry module, the module's own
/// declaration file otherwise.
pub open spec fn includes_text(fname: Seq<char>) -> Seq<char> {
    if is_entry(fname) {
        inc_directive() + " \"std.hpp\"\n\n"@
    } else {
        inc_directive() + " \""@ + trim_ly(fname) + ".hpp\"\n\n"@
    }
}

/// The opening of a non-entry module's declaration file: the guard
/// against multiple inclusion, the runtime's declarations, and the
/// module's namespace.
pub open spec fn guard_open(base: Seq<char>) -> Seq<char> {
    "#ifndef "@ + base + "_HPP\n#define "@ + base + "_HPP\n\n"@ + inc_directive()
        + " \"std.hpp\"\n\nnamespace "@ + base + " {\n"@
}

/// The closing of a non-entry module's declaration file.
pub open spec fn guard_close() -> Seq<char> {
    "}\n\n#endif"@
}

/// The leading import run of a file: from line `i`, blank and
/// comment-only lines are skipped, each import line resolves to its
/// inclusion line, and the first line that is neither ends the run.
/// Yields the resolved text and the index where the body begins.
pub open spec fn imports_phase(lines: Seq<Seq<char>>, i: nat) -> Result<
    (Seq<char>, nat),
    CompileError,
>
    decreases lines.len() - i,
{
    if i >= lines.len() {
        Ok((Seq::empty(), i))
    } else {
        match lex_from(lines[i as int], 0) {
            Err(e) => Err(e),
            Ok(ts) => if ts.len() == 0 {
                imports_phase(lines, i + 1)
            } else {
                match import_text(ts) {
                    Err(e) => Err(e),
                    Ok(None) => Ok((Seq::empty(), i)),
                    Ok(Some(txt)) => match imports_phase(lines, i + 1) {
                        Err(e) => Err(e),
                        Ok(rest) => Ok((txt + "\n"@ + rest.0, rest.1)),
                    },
                }
            },
        }
    }
}

/// The body of a file from line `i` on, threading the scope state: each
/// line is lexed, a blank line keeps the previous depth, the generator
/// runs with the line's depth and the previous one, and method
/// declarations accumulate. Yields the definition text, the declaration
/// text, the depth of the last line, and the collected methods.
pub open spec fn body_phase(
    lines: Seq<Seq<char>>,
    i: nat,
    fname: Seq<char>,
    last: nat,
    ms: Seq<MethodModel>,
) -> Result<(Seq<char>, Seq<char>, nat, Seq<MethodModel>), CompileError>
    decreases lines.len() - i,
{
    if i >= lines.len() {
        Ok((Seq::empty(), Seq::empty(), last, ms))
    } else {
        match lex_from(lines[i as int], 0) {
            Err(e) => Err(e),
            Ok(ts) => {
                let tabs = if ts.len() == 0 {
                    last
                } else {
                    lex_depth(lines[i as int]) as nat
                };
                match gen_result(ts, fname, tabs, last) {
                    Err(e) => Err(e),
                    Ok(ch) => {
                        let ms2 = if is_method_decl(ts, fname, tabs) {
                            ms.push(method_of(ts))
                        } else {
                            ms
                        };
                        let cpart = if ch.0.len() == 0 {
                            Seq::<char>::empty()
                        } else {
                            ch.0 + "\n"@
                        };
                        let hpart = if ch.1.len() == 0 {
                            Seq::<char>::empty()
                        } else {
                            ch.1 + "\n"@
                        };
                        match body_phase(lines, i + 1, fname, tabs, ms2) {
                            Err(e) => Err(e),
                            Ok(rest) => Ok(
                                (cpart + rest.0, hpart + rest.1, rest.2, rest.3),
                            ),
                        }
                    },
                }
            },
        }
    }
}

/// What emitting one whole module produces: the definition file's text
/// and, for a non-entry module, the declaration file's text. The
/// definition file holds its inclusion lines, the resolved imports, the
/// entry point's opening for the entry module, every line's generated
/// text, the closings of whatever scopes are still open at end of file,
/// and the entry point's closing brace or the registration block.
pub open spec fn module_text(fname: Seq<char>, lines: Seq<Seq<char>>) -> Result<
    (Seq<char>, Option<Seq<char>>),
    CompileError,
> {
    match imports_phase(lines, 0) {
        Err(e) => Err(e),
        Ok(imp) => {
            let main_open = if is_entry(fname) {
                "int main() {\n"@
            } else {
                Seq::<char>::empty()
            };
            match body_phase(lines, imp.1, fname, 0, Seq::empty()) {
                Err(e) => Err(e),
                Ok(body) => {
                    let ending = if is_entry(fname) {
                        "}"@
                    } else {
                        registration_block(trim_ly(fname), body.3)
                    };
                    let source = includes_text(fname) + imp.0 + main_open + body.0 + scope_close(
                        fname,
                        0,
                        body.2,
                    ) + ending;
                    let header = if is_entry(fname) {
                        None
                    } else {
                        Some(guard_open(trim_ly(fname)) + body.1 + guard_close())
                    };
                    Ok((source, header))
                },
            }
        },
    }
}

/// The generated output of one module: the definition file's text, and
/// the declaration file's text for a non-entry module.
pub struct ModuleOutput {
    pub source: String,
    pub header: Option<String>,
}

/// Merges already resolved import text with the outcome of the rest of
/// the run.
pub open spec fn imp_merge(
    pre: Seq<char>,
    r: Result<(Seq<char>, nat), CompileError>,
) -> Result<(Seq<char>, nat), CompileError> {
    match r {
        Ok(p) => Ok((pre + p.0, p.1)),
        Err(e) => Err(e),
    }
}

/// Merges already generated body text with the outcome of the rest of
/// the lines.
pub open spec fn body_merge(
    cpre: Seq<char>,
    hpre: Seq<char>,
    r: Result<(Seq<char>, Seq<char>, nat, Seq<MethodModel>), CompileError>,
) -> Result<(Seq<char>, Seq<char>, nat, Seq<MethodModel>), CompileError> {
    match r {
        Ok(p) => Ok((cpre + p.0, hpre + p.1, p.2, p.3)),
        Err(e) => Err(e),
    }
}

/// Emits one whole module, exactly as `module_text` describes: the
/// definition text, and the declaration text when the module is not the
/// entry module. The compilation fails on the first line that the lexer
/// or the generator rejects, and on an import line that follows the
/// leading import run.
pub fn generate_module(filename: &str, lines: &Vec<String>) -> (r: Result<
    ModuleOutput,
    CompileError,
>)
    ensures
        match r {
            Ok(m) => module_text(filename@, lines.deep_view()) == Ok::<
                (Seq<char>, Option<Seq<char>>),
                CompileError,
            >((m.source@, m.header.deep_view())),
            Err(e) => module_text(filename@, lines.deep_view()) == Err::<
                (Seq<char>, Option<Seq<char>>),
                CompileError,
            >(e),
        },
{
    let ghost ls = lines.deep_view();
    let entry = str_eq(filename, "main.ly");
    let base = trim_ly_str(filename);
    let n = lines.len();
    proof {
        assert(forall|i: int| 0 <= i < n ==> ls[i] == #[trigger] lines@[i].deep_view());
    }

    // Resolve the leading import run.
    let mut imp: Vec<char> = Vec::new();
    let mut i: usize = 0;
    let body_start: usize;
    proof {
        assert(imp@ =~= Seq::<char>::empty());
        lemma_imp_merge_empty(imports_phase(ls, 0));
    }
    #[verifier::loop_isolation(true)]
    loop
        invariant
            i <= n,
            n == ls.len(),
            ls == lines.deep_view(),
            imports_phase(ls, 0) == imp_merge(imp@, imports_phase(ls, i as nat)),
        ensures
            i <= n,
            imports_phase(ls, 0) == imp_merge(imp@, imports_phase(ls, i as nat)),
            imports_phase(ls, i as nat) == Ok::<(Seq<char>, nat), CompileError>(
                (Seq::empty(), i as nat),
            ),
        decreases n - i,
    {
        if i == n {
            break;
        }
        proof {
            assert(ls[i as int] == lines@[i as int].deep_view());
        }
        let (toks, _depth) = match get_tokens(lines[i].as_str()) {
            Ok(p) => p,
            Err(e) => {
                return Err(e);
            },
        };
        if toks.len() == 0 {
            i = i + 1;
            continue;
        }
        match generate_imports(&toks) {
            Err(e) => {
                return Err(e);
            },
            Ok(None) => {
                break;
            },
            Ok(Some(txt)) => {
                let ghost before = imp@;
                push_str_chars(txt.as_str(), &mut imp);
                push_str_chars("\n", &mut imp);
                proof {
                    lemma_imp_step(before, txt@, ls, i as nat);
                    assert(imp@ =~= before + (txt@ + "\n"@));
                }
                i = i + 1;
            },
        }
    }
    body_start = i;

    // Generate the body, threading the scope state.
    let mut c_acc: Vec<char> = Vec::new();
    let mut h_acc: Vec<char> = Vec::new();
    let mut methods: Vec<Method> = Vec::new();
    let mut last: usize = 0;
    let mut j: usize = body_start;
    proof {
        assert(c_acc@ =~= Seq::<char>::empty());
        assert(h_acc@ =~= Seq::<char>::empty());
        assert(methods.deep_view() =~= Seq::<MethodModel>::empty());
        lemma_body_merge_empty(body_phase(ls, body_start as nat, filename@, 0, Seq::empty()));
    }
    while j < n
        invariant
            body_start <= j <= n,
            n == ls.len(),
            ls == lines.deep_view(),
            body_phase(ls, body_start as nat, filename@, 0, Seq::empty()) == body_merge(
                c_acc@,
                h_acc@,
                body_phase(ls, j as nat, filename@, last as nat, methods.deep_view()),
            ),
        decreases n - j,
    {
        proof {
            assert(ls[j as int] == lines@[j as int].deep_view());
        }
        let (toks, depth) = match get_tokens(lines[j].as_str()) {
            Ok(p) => p,
            Err(e) => {
                return Err(e);
            },
        };
        let tabs = if toks.len() == 0 {
            last
        } else {
            depth
        };
        let ghost ms_before = methods.deep_view();
        let ghost c_before = c_acc@;
        let ghost h_before = h_acc@;
        let (c, h) = match generate(&toks, filename, tabs, last, &mut methods) {
            Ok(p) => p,
            Err(e) => {
                return Err(e);
            },
        };
        if !c.as_str().is_empty() {
            push_str_chars(c.as_str(), &mut c_acc);
            push_str_chars("\n", &mut c_acc);
        }
        if !h.as_str().is_empty() {
            push_str_chars(h.as_str(), &mut h_acc);
            push_str_chars("\n", &mut h_acc);
        }
        proof {
            if c@.len() == 0 {
                assert(c_acc@ =~= c_before + Seq::<char>::empty());
            } else {
                assert(c_acc@ =~= c_before + (c@ + "\n"@));
            }
            if h@.len() == 0 {
                assert(h_acc@ =~= h_before + Seq::<char>::empty());
            } else {
                assert(h_acc@ =~= h_before + (h@ + "\n"@));
            }
            lemma_body_step(
                c_before,
                h_before,
                c_acc@,
                h_acc@,
                ls,
                j as nat,
                filename@,
                last as nat,
                tabs as nat,
                ms_before,
                methods.deep_view(),
                c@,
                h@,
            );
        }
        last = tabs;
        j = j + 1;
    }

    // Assemble the definition file.
    let mut src: Vec<char> = Vec::new();
    push_inc_directive(&mut src);
    if entry {
        push_str_chars(" \"std.hpp\"\n\n", &mut src);
    } else {
        push_str_chars(" \"", &mut src);
        push_str_chars(base, &mut src);
        push_str_chars(".hpp\"\n\n", &mut src);
    }
    let ghost inc_done = src@;
    proof {
        assert(inc_done =~= includes_text(filename@));
    }
    push_all(&imp, &mut src);
    if entry {
        push_str_chars("int main() {\n", &mut src);
    }
    push_all(&c_acc, &mut src);
    push_scope_close(filename, 0, last, &mut src);
    if entry {
        push_str_chars("}", &mut src);
    } else {
        let ending = write_ending(base, &methods);
        push_str_chars(ending.as_str(), &mut src);
    }

    // Assemble the declaration file.
    let header: Option<String> = if entry {
        None
    } else {
        let mut hd: Vec<char> = Vec::new();
        push_str_chars("#ifndef ", &mut hd);
        push_str_chars(base, &mut hd);
        push_str_chars("_HPP\n#define ", &mut hd);
        push_str_chars(base, &mut hd);
        push_str_chars("_HPP\n\n", &mut hd);
        push_inc_directive(&mut hd);
        push_str_chars(" \"std.hpp\"\n\nnamespace ", &mut hd);
        push_str_chars(base, &mut hd);
        push_str_chars(" {\n", &mut hd);
        proof {
            assert(hd@ =~= guard_open(trim_ly(filename@)));
        }
        push_all(&h_acc, &mut hd);
        push_str_chars("}\n\n#endif", &mut hd);
        Some(string_from_chars(hd.as_slice()))
    };

    proof {
        let bp = body_phase(ls, body_start as nat, filename@, 0, Seq::empty());
        assert(body_phase(ls, j as nat, filename@, last as nat, methods.deep_view()) == Ok::<
            (Seq<char>, Seq<char>, nat, Seq<MethodModel>),
            CompileError,
        >((Seq::empty(), Seq::empty(), last as nat, methods.deep_view())));
        assert(c_acc@ + Seq::<char>::empty() =~= c_acc@);
        assert(h_acc@ + Seq::<char>::empty() =~= h_acc@);
        assert(bp == Ok::<(Seq<char>, Seq<char>, nat, Seq<MethodModel>), CompileError>(
            (c_acc@, h_acc@, last as nat, methods.deep_view()),
        ));
        let main_open = if is_entry(filename@) {
            "int main() {\n"@
        } else {
            Seq::<char>::empty()
        };
        let ending = if is_entry(filename@) {
            "}"@
        } else {
            registration_block(trim_ly(filename@), methods.deep_view())
        };
        assert(imp@ + Seq::<char>::empty() =~= imp@);
        assert(src@ =~= includes_text(filename@) + imp@ + main_open + c_acc@ + scope_close(
            filename@,
            0,
            last as nat,
        ) + ending);
        if !is_entry(filename@) {
            assert(header.deep_view() == Some(
                guard_open(trim_ly(filename@)) + h_acc@ + guard_close(),
            ));
        }
    }
    Ok(ModuleOutput { source: string_from_chars(src.as_slice()), header })
}

proof fn lemma_imp_merge_empty(r: Result<(Seq<char>, nat), CompileError>)
    ensures
        imp_merge(Seq::empty(), r) == r,
{
    match r {
        Ok(p) => {
            assert(Seq::<char>::empty() + p.0 =~= p.0);
        },
        Err(_) => {},
    }
}

proof fn lemma_body_merge_empty(r: Result<(Seq<char>, Seq<char>, nat, Seq<MethodModel>), CompileError>)
    ensures
        body_merge(Seq::empty(), Seq::empty(), r) == r,
{
    match r {
        Ok(p) => {
            assert(Seq::<char>::empty() + p.0 =~= p.0);
            assert(Seq::<char>::empty() + p.1 =~= p.1);
        },
        Err(_) => {},
    }
}

proof fn lemma_imp_step(pre: Seq<char>, txt: Seq<char>, ls: Seq<Seq<char>>, i: nat)
    requires
        i < ls.len(),
        lex_from(ls[i as int], 0) matches Ok(ts) && ts.len() > 0 && import_text(ts) == Ok::<
            Option<Seq<char>>,
            CompileError,
        >(Some(txt)),
    ensures
        imp_merge(pre, imports_phase(ls, i)) == imp_merge(
            pre + (txt + "\n"@),
            imports_phase(ls, i + 1),
        ),
{
    match imports_phase(ls, i + 1) {
        Ok(rest) => {
            assert(imports_phase(ls, i) == Ok::<(Seq<char>, nat), CompileError>(
                (txt + "\n"@ + rest.0, rest.1),
            ));
            assert(pre + (txt + "\n"@ + rest.0) =~= (pre + (txt + "\n"@)) + rest.0);
        },
        Err(_) => {},
    }
}

#[verifier::rlimit(50)]
proof fn lemma_body_step(
    c_before: Seq<char>,
    h_before: Seq<char>,
    c_after: Seq<char>,
    h_after: Seq<char>,
    ls: Seq<Seq<char>>,
    j: nat,
    fname: Seq<char>,
    last: nat,
    tabs: nat,
    ms_before: Seq<MethodModel>,
    ms_after: Seq<MethodModel>,
    c: Seq<char>,
    h: Seq<char>,
)
    requires
        j < ls.len(),
        lex_from(ls[j as int], 0) matches Ok(ts) && {
            &&& tabs == if ts.len() == 0 {
                last
            } else {
                lex_depth(ls[j as int]) as nat
            }
            &&& gen_result(ts, fname, tabs, last) == Ok::<(Seq<char>, Seq<char>), CompileError>(
                (c, h),
            )
            &&& ms_after == if is_method_decl(ts, fname, tabs) {
                ms_before.push(method_of(ts))
            } else {
                ms_before
            }
        },
        c_after == c_before + (if c.len() == 0 {
            Seq::<char>::empty()
        } else {
            c + "\n"@
        }),
        h_after == h_before + (if h.len() == 0 {
            Seq::<char>::empty()
        } else {
            h + "\n"@
        }),
    ensures
        body_merge(c_before, h_before, body_phase(ls, j, fname, last, ms_before)) == body_merge(
            c_after,
            h_after,
            body_phase(ls, j + 1, fname, tabs, ms_after),
        ),
{
    let ts = lex_from(ls[j as int], 0)->Ok_0;
    let cpart = if c.len() == 0 {
        Seq::<char>::empty()
    } else {
        c + "\n"@
    };
    let hpart = if h.len() == 0 {
        Seq::<char>::empty()
    } else {
        h + "\n"@
    };
    match body_phase(ls, j + 1, fname, tabs, ms_after) {
        Ok(rest) => {
            assert(body_phase(ls, j, fname, last, ms_before) == Ok::<
                (Seq<char>, Seq<char>, nat, Seq<MethodModel>),
                CompileError,
            >((cpart + rest.0, hpart + rest.1, rest.2, rest.3)));
            assert(c_before + (cpart + rest.0) =~= (c_before + cpart) + rest.0);
            assert(h_before + (hpart + rest.1) =~= (h_before + hpart) + rest.1);
        },
        Err(_) => {},
    }
}

} // verus!

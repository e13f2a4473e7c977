use lyra::compiler::{compile, SourceFile};
use lyra::emitter::generate_module;
use lyra::errors::CompileError;

fn file(name: &str, lines: &[&str]) -> SourceFile {
    SourceFile {
        name: name.to_string(),
        lines: lines.iter().map(|l| l.to_string()).collect(),
    }
}

fn inc(rest: &str) -> String {
    String::from("#inc") + "lude" + rest
}

#[test]
fn entry_module_with_binding_and_print() {
    // The entry file's statements become the program's entry point; the
    // binding is file-local and the print built-in is called under its
    // escaped name.
    let m = generate_module(
        "main.ly",
        &vec!["let x = 5".to_string(), "print(x)".to_string()],
    )
    .unwrap();
    let expected = inc(" \"std.hpp\"\n\n") + "int main() {\n\tValue x(Value(5));\n\t_print(x);\n}";
    assert_eq!(m.source, expected);
    assert!(m.header.is_none());
}

#[test]
fn module_with_method_gets_fallback_return_and_registration() {
    // A non-entry file with one method: the flat function, the fallback
    // return inserted when end of file closes its body, and one
    // registration call for the method with arity one.
    let m = generate_module(
        "util.ly",
        &vec!["method double(n)".to_string(), "\treturn n * 2".to_string()],
    )
    .unwrap();
    let expected = inc(" \"util.hpp\"\n\n")
        + "Value util_double(Value n) {\n"
        + "\treturn n*Value(2);\n"
        + "\treturn Value(nullptr);\n}\n"
        + "\n[[maybe_unused]] static bool _ = []() {\n"
        + "Value::register_method(\n            \"double\", [](const std::vector<Value>& args) -> Value {\n                if (args.size() != 1)\n                    throw std::runtime_error(\"double expects 1 args\");\n                return util_double(args[0]);\n            });\n"
        + "return true;\n}();";
    assert_eq!(m.source, expected);
    let header = m.header.expect("a non-entry module has a header");
    let expected_header = String::from("#ifndef util_HPP\n#define util_HPP\n\n") + &inc(
        " \"std.hpp\"\n\nnamespace util {\n",
    ) + "}\n\n#endif";
    assert_eq!(header, expected_header);
}

#[test]
fn import_run_resolves_before_body() {
    let m = generate_module(
        "main.ly",
        &vec![
            "import util".to_string(),
            "".to_string(),
            "let x = 1".to_string(),
        ],
    )
    .unwrap();
    let expected = inc(" \"std.hpp\"\n\n")
        + &inc(" \"util.hpp\"\n")
        + "int main() {\n\tValue x(Value(1));\n}";
    assert_eq!(m.source, expected);
}

#[test]
fn import_after_statement_fails_with_no_output() {
    // An import below a non-import statement ends the compilation.
    let r = generate_module(
        "main.ly",
        &vec!["let x = 5".to_string(), "import util".to_string()],
    );
    assert!(matches!(r, Err(CompileError::ImportNotAtTop)));
}

#[test]
fn nested_blocks_close_on_dedent_and_at_end() {
    let m = generate_module(
        "main.ly",
        &vec![
            "if true".to_string(),
            "\tif true".to_string(),
            "\t\tlet x = 1".to_string(),
            "let y = 2".to_string(),
        ],
    )
    .unwrap();
    let expected = inc(" \"std.hpp\"\n\n")
        + "int main() {\n"
        + "\tif (Value(true)) {\n"
        + "\t\tif (Value(true)) {\n"
        + "\t\t\tValue x(Value(1));\n"
        + "\t}\n}\n\tValue y(Value(2));\n"
        + "}";
    assert_eq!(m.source, expected);
}

#[test]
fn blank_lines_keep_the_previous_depth() {
    // A blank or comment-only line never triggers a scope change.
    let m = generate_module(
        "util.ly",
        &vec![
            "method f()".to_string(),
            "".to_string(),
            "# comment".to_string(),
            "\treturn 1".to_string(),
        ],
    )
    .unwrap();
    assert!(m.source.contains("Value util_f() {\n\treturn Value(1);\n"));
}

#[test]
fn lex_failure_anywhere_aborts_the_module() {
    let r = generate_module("main.ly", &vec!["let s = \"oops".to_string()]);
    assert!(matches!(r, Err(CompileError::UnterminatedStringLiteral)));
}

#[test]
fn compile_rejects_empty_file_set() {
    let files: Vec<SourceFile> = vec![];
    assert!(matches!(
        compile(&files),
        Err(CompileError::NoSourceFiles)
    ));
}

#[test]
fn compile_rejects_missing_entry_module() {
    let files = vec![file("util.ly", &["let x = 1"])];
    assert!(matches!(
        compile(&files),
        Err(CompileError::NoEntryModule)
    ));
}

#[test]
fn compile_rejects_wrong_extension() {
    let files = vec![file("main.txt", &["let x = 1"])];
    assert!(matches!(
        compile(&files),
        Err(CompileError::InvalidFilename)
    ));
}

#[test]
fn compile_generates_one_module_per_file() {
    let files = vec![
        file("main.ly", &["import util", "util::go()"]),
        file("util.ly", &["go()", "\tprint(1)"]),
    ];
    let out = compile(&files).unwrap();
    assert_eq!(out.len(), 2);
    assert_eq!(out[0].base, "main");
    assert!(out[0].header.is_none());
    assert_eq!(out[1].base, "util");
    assert!(out[1].header.is_some());
    assert!(out[0].source.contains("int main() {"));
    assert!(out[1].source.contains("Value util::go() {"));
    let header = out[1].header.as_ref().unwrap();
    assert!(header.contains("Value go();"));
}

#[test]
fn compile_fails_on_first_bad_file() {
    let files = vec![
        file("main.ly", &["let x = 1"]),
        file("util.ly", &["5 5"]),
    ];
    assert!(matches!(
        compile(&files),
        Err(CompileError::UnexpectedTokenSequence)
    ));
}

#[test]
fn sibling_methods_each_close_their_own_scope() {
    // Two sibling top-level methods: the dedent between them and the end
    // of file each close one function body, both with the fallback
    // return. The scope-closing emissions total two — one per opening —
    // even though the maximum depth reached is one.
    let m = generate_module(
        "util.ly",
        &vec![
            "method a()".to_string(),
            "\treturn 1".to_string(),
            "method b()".to_string(),
            "\treturn 2".to_string(),
        ],
    )
    .unwrap();
    let closer = "\treturn Value(nullptr);\n}\n";
    assert_eq!(m.source.matches(closer).count(), 2);
}

#[test]
fn zero_arity_method_checks_for_zero_args() {
    let m = generate_module("util.ly", &vec!["method ping()".to_string()]).unwrap();
    assert!(m.source.contains("if (args.size() != 0)"));
    assert!(m.source.contains("\"ping expects 0 args\""));
    assert!(m.source.contains("return util_ping();"));
}

#[test]
fn registration_names_method_and_arity() {
    let m = generate_module(
        "util.ly",
        &vec!["method add(a, b)".to_string(), "\treturn a + b".to_string()],
    )
    .unwrap();
    assert!(m.source.contains("if (args.size() != 2)"));
    assert!(m.source.contains("\"add expects 2 args\""));
    assert!(m.source.contains("return util_add(args[0], args[1]);"));
}

#[test]
fn compile_rejects_extension_only_name() {
    let files = vec![file(".ly", &["let x = 1"])];
    assert!(matches!(
        compile(&files),
        Err(CompileError::InvalidFilename)
    ));
}

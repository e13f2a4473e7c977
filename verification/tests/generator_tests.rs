use lyra::errors::CompileError;
use lyra::generator::{add_tabs_after_newlines, generate, generate_imports, match_c_code, match_h_code};
use lyra::lexer::get_tokens;
use lyra::tokens::{Method, Token};

fn lex(line: &str) -> Vec<Token> {
    get_tokens(line).expect("line should lex").0
}

fn c_code(line: &str, filename: &str, tabs: usize) -> Result<String, CompileError> {
    match_c_code(&lex(line), filename, tabs)
}

#[test]
fn let_in_entry_is_local_and_indented() {
    // Entry-module statements sit inside `main`, so they get one extra
    // tab; the binding is not namespaced.
    let got = c_code("let x = 5", "main.ly", 0).unwrap();
    assert_eq!(got, "\tValue x(Value(5));");
}

#[test]
fn let_at_top_level_of_module_is_namespaced() {
    let got = c_code("let x = 5", "util.ly", 0).unwrap();
    assert_eq!(got, "Value util::x(Value(5));");
}

#[test]
fn let_inside_block_is_local() {
    let got = c_code("\tlet x = 5", "util.ly", 1).unwrap();
    assert_eq!(got, "\tValue x(Value(5));");
}

#[test]
fn let_without_initializer_is_null() {
    assert_eq!(c_code("let x", "main.ly", 0).unwrap(), "\tValue x(nullptr);");
    assert_eq!(
        c_code("let x", "util.ly", 0).unwrap(),
        "Value util::x(nullptr);"
    );
}

#[test]
fn const_binding_is_const_value() {
    assert_eq!(
        c_code("const c = 1", "util.ly", 0).unwrap(),
        "const Value util::c(Value(1));"
    );
}

#[test]
fn method_declaration_compiles_to_flat_function() {
    let got = c_code("method double(n)", "util.ly", 0).unwrap();
    assert_eq!(got, "Value util_double(Value n) {");
}

#[test]
fn method_declaration_in_entry_fails() {
    let r = c_code("method double(n)", "main.ly", 0);
    assert!(matches!(r, Err(CompileError::UnexpectedTokenSequence)));
}

#[test]
fn function_declaration_is_namespaced() {
    let got = c_code("helper(a, b)", "util.ly", 0).unwrap();
    assert_eq!(got, "Value util::helper(Value a, Value b) {");
}

#[test]
fn print_call_uses_escaped_builtin() {
    let got = c_code("\tprint(x)", "util.ly", 1).unwrap();
    assert_eq!(got, "\t_print(x);");
}

#[test]
fn namespaced_call_statement() {
    let got = c_code("\tutil::go(1)", "main.ly", 1).unwrap();
    assert_eq!(got, "\t\tutil::go(Value(1));");
}

#[test]
fn dynamic_method_call_statement() {
    let got = c_code("\tobj.push(1)", "main.ly", 1).unwrap();
    assert_eq!(got, "\t\tobj[\"push\"](Value(1));");
}

#[test]
fn increment_and_decrement_forms() {
    assert_eq!(c_code("\t++i", "util.ly", 1).unwrap(), "\t++i;");
    assert_eq!(c_code("\ti++", "util.ly", 1).unwrap(), "\ti++;");
    assert_eq!(c_code("\t--i", "util.ly", 1).unwrap(), "\t--i;");
    assert_eq!(c_code("\ti--", "util.ly", 1).unwrap(), "\ti--;");
}

#[test]
fn compound_assignment_forms() {
    assert_eq!(c_code("\ta += 1", "util.ly", 1).unwrap(), "\ta += Value(1);");
    assert_eq!(c_code("\ta *= b", "util.ly", 1).unwrap(), "\ta *= b;");
}

#[test]
fn indexed_assignment() {
    let got = c_code("\txs[0] = 5", "util.ly", 1).unwrap();
    assert_eq!(got, "\txs[Value(0)] = Value(5);");
}

#[test]
fn indexed_assignment_needs_bracket_before_equals() {
    let r = c_code("\txs[0 = 5", "util.ly", 1);
    assert!(matches!(r, Err(CompileError::MalformedArrayAssignment)));
    let r2 = c_code("\txs[", "util.ly", 1);
    assert!(matches!(r2, Err(CompileError::MalformedArrayAssignment)));
}

#[test]
fn control_flow_forms() {
    assert_eq!(
        c_code("\tif a < b", "util.ly", 1).unwrap(),
        "\tif (a<b) {"
    );
    assert_eq!(c_code("\telse", "util.ly", 1).unwrap(), "\telse {");
    assert_eq!(
        c_code("\telse if a", "util.ly", 1).unwrap(),
        "\telse if (a) {"
    );
    assert_eq!(c_code("\tloop", "util.ly", 1).unwrap(), "\twhile (true) {");
    assert_eq!(c_code("\tloop a", "util.ly", 1).unwrap(), "\twhile (a) {");
    assert_eq!(c_code("\tbreak", "util.ly", 1).unwrap(), "\tbreak;");
    assert_eq!(c_code("\tcontinue", "util.ly", 1).unwrap(), "\tcontinue;");
}

#[test]
fn loop_over_range_lowers_bounds() {
    let got = c_code("\tloop i in 0 .. 3", "util.ly", 1).unwrap();
    assert_eq!(
        got,
        "\tfor (const Value& i : Range(Value(0), Value(3))) {"
    );
}

#[test]
fn return_forms_in_module() {
    assert_eq!(
        c_code("\treturn n", "util.ly", 1).unwrap(),
        "\treturn n;"
    );
    assert_eq!(
        c_code("\treturn", "util.ly", 1).unwrap(),
        "\treturn Value(nullptr);"
    );
}

#[test]
fn return_in_entry_fails() {
    let r = c_code("\treturn 1", "main.ly", 1);
    assert!(matches!(r, Err(CompileError::UnexpectedTokenSequence)));
}

#[test]
fn unknown_statement_shape_fails() {
    let r = c_code("5 5 5", "util.ly", 0);
    assert!(matches!(r, Err(CompileError::UnexpectedTokenSequence)));
}

#[test]
fn import_resolves_to_inclusion_line() {
    let got = generate_imports(&lex("import util")).unwrap();
    let expected = String::from("#inc") + "lude \"util.hpp\"";
    assert_eq!(got, Some(expected));
}

#[test]
fn non_import_line_is_not_an_import() {
    assert_eq!(generate_imports(&lex("let x = 5")).unwrap(), None);
}

#[test]
fn importing_reserved_module_names_fails() {
    for line in ["import std", "import main"] {
        let r = generate_imports(&lex(line));
        assert!(matches!(r, Err(CompileError::ReservedModuleNameImported)));
    }
}

#[test]
fn import_after_statements_fails() {
    let r = c_code("import util", "main.ly", 0);
    assert!(matches!(r, Err(CompileError::ImportNotAtTop)));
}

#[test]
fn header_declares_functions_and_bindings() {
    assert_eq!(
        match_h_code(&lex("helper(a)")).unwrap(),
        "Value helper(Value a);"
    );
    let let_decl = match_h_code(&lex("let x = 5")).unwrap();
    assert_eq!(let_decl, String::from("ext") + "ern Value x;");
    let const_decl = match_h_code(&lex("const c = 1")).unwrap();
    assert_eq!(const_decl, String::from("ext") + "ern const Value c;");
    assert_eq!(match_h_code(&lex("\tif a")).unwrap(), "");
}

#[test]
fn dedent_closes_one_block_per_level() {
    let mut methods: Vec<Method> = Vec::new();
    // Stepping from depth 2 to depth 0 in the entry module closes two
    // plain blocks, most deeply nested first.
    let (c, h) = generate(&lex("let y = 2"), "main.ly", 0, 2, &mut methods).unwrap();
    assert_eq!(c, "\t}\n}\n\tValue y(Value(2));");
    assert_eq!(h, "");
}

#[test]
fn closing_module_top_level_inserts_fallback_return() {
    let mut methods: Vec<Method> = Vec::new();
    // Closing the top level of a non-entry module is closing a function
    // body: the fallback return comes right before the brace.
    let (c, _) = generate(&lex("let y = 2"), "util.ly", 0, 1, &mut methods).unwrap();
    assert_eq!(c, "\treturn Value(nullptr);\n}\nValue util::y(Value(2));");
}

#[test]
fn method_declaration_is_recorded_with_arity() {
    let mut methods: Vec<Method> = Vec::new();
    let (c, _) = generate(&lex("method add(a, b)"), "util.ly", 0, 0, &mut methods).unwrap();
    assert_eq!(c, "Value util_add(Value a, Value b) {");
    assert_eq!(methods.len(), 1);
    assert_eq!(methods[0].method, "add");
    assert_eq!(methods[0].num_params, 2);
    assert_eq!(methods[0].args_str, "args[0], args[1]");
}

#[test]
fn non_method_lines_record_nothing() {
    let mut methods: Vec<Method> = Vec::new();
    generate(&lex("let x = 1"), "util.ly", 0, 0, &mut methods).unwrap();
    assert!(methods.is_empty());
}

#[test]
fn add_tabs_prefixes_each_line() {
    assert_eq!(add_tabs_after_newlines("a;\nb;", 2, "util"), "\t\ta;\n\t\tb;");
    assert_eq!(add_tabs_after_newlines("", 3, "util"), "");
}

#[test]
fn add_tabs_gives_entry_module_one_extra() {
    assert_eq!(add_tabs_after_newlines("a;", 1, "main"), "\t\ta;");
    assert_eq!(add_tabs_after_newlines("a;", 1, "util"), "\ta;");
}

#[test]
fn error_messages_name_the_failure() {
    assert_eq!(
        CompileError::UnexpectedToken.message(),
        "unexpected token"
    );
    assert_eq!(
        CompileError::BackendCompilationFailed.message(),
        "backend compiler failed"
    );
}

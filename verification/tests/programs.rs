//! Whole programs through `run`: scenarios and error cases.
use lox::run;
use lox::RunError;
use lox::lox_error::LoxError;

fn outputs(source: &str) -> Vec<String> {
    let r = run(source);
    assert!(r.error.is_none(), "unexpected error: {:?}", r.error);
    r.output
}

fn runtime_message(source: &str) -> String {
    let r = run(source);
    match r.error {
        Some(RunError::Runtime(LoxError::RuntimeError(m))) => m,
        other => panic!("expected runtime error, got {:?}", other),
    }
}

#[test]
fn prints_a_sum() {
    assert_eq!(outputs("print 1 + 2;"), vec!["3".to_string()]);
}

#[test]
fn block_scope_shadows_and_restores() {
    let out = outputs("var a = 1; { var a = 2; print a; } print a;");
    assert_eq!(out, vec!["2".to_string(), "1".to_string()]);
}

#[test]
fn variable_declared_in_block_is_not_visible_outside() {
    let m = runtime_message("{ var a = 1; } print a;");
    assert_eq!(m, "Undefined variable 'a'.");
}

#[test]
fn closure_counter_keeps_its_cell() {
    let src = "fun make() { var c = 0; fun inc() { c = c + 1; return c; } return inc; } \
               var f = make(); print f(); print f(); print f();";
    assert_eq!(
        outputs(src),
        vec!["1".to_string(), "2".to_string(), "3".to_string()]
    );
}

#[test]
fn while_loop_counts() {
    let out = outputs("var i = 0; while (i < 3) { print i; i = i + 1; }");
    assert_eq!(out, vec!["0".to_string(), "1".to_string(), "2".to_string()]);
}

#[test]
fn recursive_fibonacci() {
    let src = "fun fib(n) { if (n < 2) return n; return fib(n-1) + fib(n-2); } print fib(10);";
    assert_eq!(outputs(src), vec!["55".to_string()]);
}

#[test]
fn string_concatenation() {
    let out = outputs("var a = \"hi\"; print a + \" there\";");
    assert_eq!(out, vec!["hi there".to_string()]);
}

#[test]
fn reading_a_variable_in_its_own_initializer_is_a_binding_error() {
    let r = run("var a = a;");
    match r.error {
        Some(RunError::Resolve(LoxError::BindingError(token, message))) => {
            assert_eq!(token, "a");
            assert_eq!(message, "cannot read local variable in its own initializer.");
        },
        other => panic!("expected binding error, got {:?}", other),
    }
}

#[test]
fn adding_number_and_string_is_a_type_error() {
    let m = runtime_message("1 + \"x\";");
    assert_eq!(m, "Operands must be two numbers or two strings.");
}

#[test]
fn calling_an_undefined_name_is_an_error() {
    let m = runtime_message("foo();");
    assert_eq!(m, "Undefined variable 'foo'.");
}

#[test]
fn for_loop_matches_manually_desugared_while() {
    let with_for = outputs("for (var i = 0; i < 5; i = i + 1) print i;");
    let with_while = outputs("{ var i = 0; while (i < 5) { print i; i = i + 1; } }");
    assert_eq!(with_for, with_while);
    assert_eq!(with_for.len(), 5);
    assert_eq!(with_for[4], "4");
}

#[test]
fn or_short_circuits_without_evaluating_the_right_side() {
    let out = outputs("var x = 0; var d = true or (x = 1); print x; print d;");
    assert_eq!(out, vec!["0".to_string(), "true".to_string()]);
}

#[test]
fn and_short_circuits_without_evaluating_the_right_side() {
    let out = outputs("var x = 0; var d = false and (x = 2); print x; print d;");
    assert_eq!(out, vec!["0".to_string(), "false".to_string()]);
}

#[test]
fn closure_and_outer_scope_share_one_variable() {
    let src = "var s; var g; \
               fun mk() { var a = 5; fun set(v) { a = v; } fun get() { return a; } s = set; g = get; } \
               mk(); print g(); s(9); print g();";
    assert_eq!(outputs(src), vec!["5".to_string(), "9".to_string()]);
}

#[test]
fn closure_sees_later_mutation_of_captured_global() {
    let out = outputs("var x = 1; fun show() { print x; } x = 2; show();");
    assert_eq!(out, vec!["2".to_string()]);
}

#[test]
fn function_values_are_never_equal() {
    let out = outputs("fun f() {} print f == f; print 1 == 1; print nil == nil;");
    assert_eq!(
        out,
        vec!["false".to_string(), "true".to_string(), "true".to_string()]
    );
}

#[test]
fn calling_a_number_is_an_error() {
    let m = runtime_message("var a = 3; a();");
    assert_eq!(m, "Can only call functions.");
}

#[test]
fn wrong_arity_is_an_error() {
    let m = runtime_message("fun f(a, b) {} f(1);");
    assert_eq!(m, "Wrong number of arguments.");
}

#[test]
fn division_by_zero_is_an_error() {
    let m = runtime_message("print 1 / 0;");
    assert_eq!(m, "Division by zero.");
}

#[test]
fn division_truncates_toward_zero() {
    assert_eq!(outputs("print 7 / 2; print 0 - 7 / 2;"), vec!["3", "-3"]);
}

#[test]
fn negating_a_string_is_an_error() {
    let m = runtime_message("-\"abc\";");
    assert_eq!(m, "Operand must be a number.");
}

#[test]
fn assigning_an_undefined_name_is_an_error() {
    let m = runtime_message("b = 3;");
    assert_eq!(m, "Undefined variable 'b'.");
}

#[test]
fn overflowing_arithmetic_is_an_error() {
    let m = runtime_message("print 9223372036854775807 + 1;");
    assert_eq!(m, "Arithmetic overflow.");
}

#[test]
fn prints_each_value_kind() {
    let out = outputs("print nil; print true; print false; print 0 - 42; fun f() {} print f;");
    assert_eq!(out, vec!["nil", "true", "false", "-42", "fn f"]);
}

#[test]
fn if_else_branches() {
    let out = outputs("if (1 < 2) print \"a\"; else print \"b\"; if (2 < 1) print \"c\"; else print \"d\";");
    assert_eq!(out, vec!["a", "d"]);
}

#[test]
fn truthiness_of_values() {
    let out = outputs("if (0) print \"zero\"; if (\"\") print \"empty\"; if (nil) print \"nil\"; else print \"no\";");
    assert_eq!(out, vec!["zero", "empty", "no"]);
}

#[test]
fn comparisons_and_equality() {
    let out = outputs("print 1 <= 1; print 2 > 3; print 1 != 2; print \"a\" == \"a\"; print 1 == \"1\";");
    assert_eq!(out, vec!["true", "false", "true", "true", "false"]);
}

#[test]
fn comments_are_skipped() {
    let out = outputs("// nothing here\nprint 1; // trailing\nprint 2;");
    assert_eq!(out, vec!["1", "2"]);
}

#[test]
fn return_without_value_yields_nil() {
    let out = outputs("fun f() { return; } print f();");
    assert_eq!(out, vec!["nil"]);
}

#[test]
fn body_without_return_yields_nil() {
    let out = outputs("fun f() { 1 + 1; } print f();");
    assert_eq!(out, vec!["nil"]);
}

#[test]
fn unknown_character_is_a_scan_error_with_its_line() {
    let r = run("print 1;\n@");
    match r.error {
        Some(RunError::Scan(e)) => assert_eq!(e.line(), 1),
        other => panic!("expected scan error, got {:?}", other),
    }
}

#[test]
fn too_large_number_literal_is_a_parse_error() {
    let r = run("print 99999999999999999999;");
    assert!(matches!(r.error, Some(RunError::Parse(_))));
}

#[test]
fn too_many_parameters_is_a_parse_error() {
    let r = run("fun f(a,b,c,d,e,f,g,h,i,j,k) {}");
    assert!(matches!(r.error, Some(RunError::Parse(_))));
}

#[test]
fn partial_output_survives_a_runtime_error() {
    let r = run("print 1; print nil + 1; print 2;");
    assert_eq!(r.output, vec!["1".to_string()]);
    assert!(matches!(r.error, Some(RunError::Runtime(_))));
}

#[test]
fn for_loop_with_empty_clauses_runs_body_until_broken_by_condition() {
    let out = outputs("var i = 0; for (; i < 2;) { print i; i = i + 1; }");
    assert_eq!(out, vec!["0", "1"]);
}

#[test]
fn nested_blocks_resolve_to_the_right_depth() {
    let out = outputs("var a = \"g\"; { var a = \"m\"; { var a = \"i\"; print a; } print a; } print a;");
    assert_eq!(out, vec!["i", "m", "g"]);
}

#[test]
fn assignment_to_a_non_variable_is_a_parse_error() {
    let r = run("1 = 2;");
    match r.error {
        Some(RunError::Parse(e)) => assert_eq!(e.description, "Invalid assignment target."),
        other => panic!("expected parse error, got {:?}", other),
    }
}

#[test]
fn assignment_to_a_grouping_is_a_parse_error() {
    let r = run("var a = 1; (a) = 2;");
    match r.error {
        Some(RunError::Parse(e)) => assert_eq!(e.description, "Invalid assignment target."),
        other => panic!("expected parse error, got {:?}", other),
    }
}

#[test]
fn fractional_literal_is_one_token_and_rejected_as_a_number() {
    let r = run("print 1.5;");
    match r.error {
        Some(RunError::Parse(e)) => assert_eq!(e.description, "Invalid number literal."),
        other => panic!("expected parse error, got {:?}", other),
    }
}

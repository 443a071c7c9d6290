use afg::ast::node::{Node, NodeKind};
use afg::ast::AST;
use afg::lexer::token::TokenLocation;
use afg::semantic::{
    analyze, get_new_variables, get_used_variables, is_valid_assignment_lparam,
    show_span_location, SemanticError,
};

fn analyzed(code: &str) -> Result<(), String> {
    let ast = AST::parse(code).expect("the program parses");
    analyze(&ast).map_err(|e| e.to_string())
}

#[test]
fn test_valid_program() {
    assert_eq!(analyzed("fn main() { set x = 5; set y = x + 1; }"), Ok(()));
}

#[test]
fn test_parameters_are_in_scope() {
    assert_eq!(analyzed("fn add(a, b) { set c = a + b; return c; }"), Ok(()));
}

#[test]
fn test_unknown_variable() {
    assert_eq!(
        analyzed("fn main() { set x = y; }"),
        Err("[Semantic] Unknown Variable: y is not in scope".to_string())
    );
}

#[test]
fn test_nested_block_declarations_stay_inside() {
    assert_eq!(
        analyzed("fn main() { set a = 1; if a > 0 { set x = 1; } set y = x; }"),
        Err("[Semantic] Unknown Variable: x is not in scope".to_string())
    );
}

#[test]
fn test_condition_uses_are_checked() {
    assert_eq!(
        analyzed("fn main() { while z < 3 { } }"),
        Err("[Semantic] Unknown Variable: z is not in scope".to_string())
    );
}

#[test]
fn test_unknown_function() {
    assert_eq!(
        analyzed("fn main() { call foo(); }"),
        Err("[Semantic] Unknown Function: Function foo is not defined".to_string())
    );
}

#[test]
fn test_wrong_arity() {
    assert_eq!(
        analyzed("fn f(a) { } fn main() { call f(); }"),
        Err("[Semantic] Invalid Function Call: Function f expects 1 parameters, but got 0".to_string())
    );
}

#[test]
fn test_call_arguments_must_be_declared() {
    assert_eq!(
        analyzed("fn f(a) { } fn main() { call f(q); }"),
        Err("[Semantic] Unknown Variable: q is not in scope".to_string())
    );
}

#[test]
fn test_literal_is_not_an_lparam() {
    let lit = Node::new(NodeKind::Litteral { value: 5 });
    match is_valid_assignment_lparam(&lit) {
        Err(SemanticError::InvalidOperation(m)) => {
            assert_eq!(m, "5 is not a valid lparam for an assignment")
        }
        _ => panic!("a literal must be refused"),
    }
    let id = Node::new(NodeKind::Identifier { name: "x".to_string() });
    assert!(is_valid_assignment_lparam(&id).is_ok());
}

#[test]
fn test_assignment_to_literal_is_refused() {
    let node = Node::new(NodeKind::Assignment {
        lparam: Box::new(Node::new(NodeKind::Litteral { value: -3 })),
        rparam: Box::new(Node::new(NodeKind::Identifier { name: "y".to_string() })),
    });
    let e = get_used_variables(&node).err().expect("an error");
    assert_eq!(
        e.to_string(),
        "[Semantic] Invalid Operation: -3 is not a valid lparam for an assignment"
    );
}

#[test]
fn test_new_and_used_variables() {
    let node = Node::new(NodeKind::Assignment {
        lparam: Box::new(Node::new(NodeKind::Identifier { name: "x".to_string() })),
        rparam: Box::new(Node::new(NodeKind::Operation {
            lparam: Box::new(Node::new(NodeKind::Identifier { name: "a".to_string() })),
            rparam: Box::new(Node::new(NodeKind::Identifier { name: "b".to_string() })),
            operation: afg::ast::node::OperationType::Addition,
        })),
    });
    assert_eq!(get_new_variables(&node), vec!["x".to_string()]);
    assert_eq!(
        get_used_variables(&node).ok().expect("no error"),
        vec!["a".to_string(), "b".to_string()]
    );
}

#[test]
fn test_show_span_location() {
    let loc = TokenLocation { start: 0, end: 1, line: 3, column: 7 };
    assert_eq!(show_span_location(&Some(loc)), " at line 3 column 7");
    assert_eq!(show_span_location(&None), "");
}

#[test]
fn test_unknown_variable_in_print_return_and_offset() {
    assert!(matches!(
        analyze(&AST::parse("fn main() { set y = x; }").unwrap()),
        Err(SemanticError::UnknownVariable(_))
    ));
    assert!(matches!(
        analyze(&AST::parse("fn main() { print x; }").unwrap()),
        Err(SemanticError::UnknownVariable(_))
    ));
    assert!(matches!(
        analyze(&AST::parse("fn f() { return x; }").unwrap()),
        Err(SemanticError::UnknownVariable(_))
    ));
    assert!(matches!(
        analyze(&AST::parse("fn main() { set arr = 1; set y = arr[i]; }").unwrap()),
        Err(SemanticError::UnknownVariable(_))
    ));
    assert_eq!(analyzed("fn main() { set x = 1; print x; }"), Ok(()));
    assert_eq!(analyzed("fn main() { set arr = 1; set i = 0; set y = arr[i]; }"), Ok(()));
}

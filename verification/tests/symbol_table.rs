use icarus::symbol_table::{FunctionSymbol, SymbolLocation, SymbolTable, SymbolType, ValueType};

#[test]
fn test_symbol_table_basic() {
    let mut table = SymbolTable::new();
    table.declare_variable("x".to_string(), ValueType::Int, None).unwrap();
    assert!(table.lookup("x").is_some());
}

#[test]
fn test_scoped_lookup() {
    let mut table = SymbolTable::new();
    table.declare_variable("global".to_string(), ValueType::Int, None).unwrap();
    table.enter_scope();
    table.declare_variable("local".to_string(), ValueType::Int, None).unwrap();
    assert!(table.lookup("global").is_some());
    assert!(table.lookup("local").is_some());
    table.exit_scope();
    assert!(table.lookup("global").is_some());
    assert!(table.lookup("local").is_none());
}

#[test]
fn symbol_table_test_hot_variables() {
    let mut table = SymbolTable::new();
    table.declare_variable("x".to_string(), ValueType::Int, None).unwrap();
    for _ in 0..10 {
        table.increment_reference("x");
    }
    let hot = table.get_hot_variables(5);
    assert!(hot.contains(&"x".to_string()));
}

#[test]
fn redeclaring_in_the_same_scope_is_an_error() {
    let mut table = SymbolTable::new();
    table.declare_variable("x".to_string(), ValueType::Int, None).unwrap();
    assert_eq!(
        table.declare_variable("x".to_string(), ValueType::Bool, None),
        Err("Variable 'x' already declared in this scope".to_string())
    );
    table.enter_scope();
    assert!(table.declare_variable("x".to_string(), ValueType::Bool, None).is_ok());
    let inner = table.lookup("x").unwrap();
    assert_eq!(inner.value_type, ValueType::Bool);
    assert_eq!(inner.scope_level, 1);
    assert_eq!(inner.sym_type, SymbolType::Local);
    table.exit_scope();
    let outer = table.lookup("x").unwrap();
    assert_eq!(outer.sym_type, SymbolType::Global);
    assert_eq!(outer.scope_level, 0);
    // the type cache keeps the latest declaration
    assert_eq!(table.get_type("x"), Some(ValueType::Bool));
    assert_eq!(table.get_type("y"), None);
}

#[test]
fn locations_and_references_go_to_the_innermost_symbol() {
    let mut table = SymbolTable::new();
    table.declare_variable("v".to_string(), ValueType::Int, None).unwrap();
    table.enter_scope();
    table.declare_variable("v".to_string(), ValueType::Int, None).unwrap();
    table.update_location("v", SymbolLocation::Register(3)).unwrap();
    table.increment_reference("v");
    assert_eq!(table.lookup("v").unwrap().location, Some(SymbolLocation::Register(3)));
    assert_eq!(table.lookup("v").unwrap().reference_count, 1);
    table.exit_scope();
    assert_eq!(table.lookup("v").unwrap().location, None);
    assert_eq!(table.lookup("v").unwrap().reference_count, 0);
    assert_eq!(table.update_location("w", SymbolLocation::Stack(-8)), Err("Variable 'w' not found".to_string()));
    // exiting the global scope does nothing
    table.exit_scope();
    assert!(table.lookup("v").is_some());
}

fn function(name: &str) -> FunctionSymbol {
    FunctionSymbol {
        name: name.to_string(),
        param_count: 1,
        param_types: vec![ValueType::Int],
        return_type: ValueType::Int,
        address: None,
        is_compiled: false,
        call_count: 0,
    }
}

#[test]
fn functions_are_declared_once_and_counted() {
    let mut table = SymbolTable::new();
    table.declare_function(function("f")).unwrap();
    assert_eq!(table.declare_function(function("f")), Err("Function 'f' already declared".to_string()));
    table.declare_function(function("g")).unwrap();
    for _ in 0..3 {
        table.increment_call_count("f");
    }
    table.increment_call_count("missing");
    table.mark_function_compiled("g", 0x1000);
    let g = table.get_function("g").unwrap();
    assert!(g.is_compiled);
    assert_eq!(g.address, Some(0x1000));
    assert_eq!(table.get_function("f").unwrap().call_count, 3);
    assert_eq!(table.get_hot_functions(3), vec!["f".to_string()]);
    assert!(table.get_hot_functions(4).is_empty());
    assert!(table.get_function("h").is_none());
}

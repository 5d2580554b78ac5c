use synthizer::tokens::{Node, SourcePos};
use synthizer::types::{FunctionType, Type, TypeTable};
use vec_map::VecMap;

fn at(index: usize) -> SourcePos {
    SourcePos { line: 1, column: index + 1, index: index, line_index: 0 }
}

#[test]
fn a_new_table_has_the_outermost_block_open() {
    let table = TypeTable::new();
    assert_eq!(table.get_scope(), &[0]);
    assert!(table.has_scope_cycle(0));
    assert!(!table.has_scope_cycle(1));
    assert!(table.get_symbol(0).is_none());
}

#[test]
fn an_inner_declaration_shadows_the_outer_one() {
    let mut table = TypeTable::new();
    let x = 3;
    table.set_type(Node(x, at(4)), Some(Type::Number));
    table.enter_block(20);
    table.set_type(Node(x, at(25)), Some(Type::Boolean));
    {
        let (symbol, depth) = table.get_symbol(x).unwrap();
        assert_eq!(depth, 0);
        assert_eq!(symbol.ty, Some(Type::Boolean));
        assert_eq!(symbol.pos.index, 25);
        assert_eq!(symbol.scope, vec![0, 20]);
    }
    table.leave_block();
    let (symbol, depth) = table.get_symbol(x).unwrap();
    assert_eq!(depth, 0);
    assert_eq!(symbol.ty, Some(Type::Number));
    assert_eq!(symbol.pos.index, 4);
    assert_eq!(symbol.scope, vec![0]);
    assert_eq!(symbol.id, x);
}

#[test]
fn an_outer_symbol_is_found_from_inside_with_its_depth() {
    let mut table = TypeTable::new();
    table.set_type(Node(1, at(0)), Some(Type::Function(1)));
    table.enter_block(10);
    table.enter_block(30);
    table.set_type(Node(2, at(31)), None);
    assert_eq!(table.get_symbol(1).unwrap().1, 2);
    assert_eq!(table.get_symbol(1).unwrap().0.ty, Some(Type::Function(1)));
    assert_eq!(table.get_symbol(2).unwrap().1, 0);
    assert_eq!(table.get_symbol(2).unwrap().0.ty, None);
    assert!(table.get_symbol(5).is_none());
    table.leave_block();
    assert_eq!(table.get_symbol(1).unwrap().1, 1);
    assert!(table.get_symbol(2).is_none());
}

#[test]
fn setting_a_type_again_keeps_the_declaration() {
    let mut table = TypeTable::new();
    table.enter_block(8);
    table.set_type(Node(4, at(9)), Some(Type::Indeterminate));
    table.enter_block(15);
    table.leave_block();
    table.set_type(Node(4, at(40)), Some(Type::Number));
    let (symbol, depth) = table.get_symbol(4).unwrap();
    assert_eq!(depth, 0);
    assert_eq!(symbol.ty, Some(Type::Number));
    assert_eq!(symbol.pos.index, 9);
    assert_eq!(symbol.scope, vec![0, 8]);
}

#[test]
fn symbols_of_a_block_are_kept_when_it_is_left() {
    let mut table = TypeTable::new();
    table.enter_block(8);
    table.set_type(Node(4, at(9)), Some(Type::Number));
    table.leave_block();
    assert!(table.get_symbol(4).is_none());
    table.enter_block(8);
    assert_eq!(table.get_symbol(4).unwrap().0.ty, Some(Type::Number));
    assert_eq!(table.get_symbol_within(&[8], 4).unwrap().1, 0);
    assert_eq!(table.get_symbol_within(&[8, 0], 4).unwrap().1, 1);
}

#[test]
fn a_chain_of_blocks_is_left_at_once() {
    let mut table = TypeTable::new();
    assert_eq!(table.levels(), 1);
    table.enter_block(5);
    table.enter_scope(&[7, 9, 11]);
    assert_eq!(table.levels(), 3);
    assert_eq!(table.get_scope(), &[0, 5, 7, 9, 11]);
    table.enter_block(13);
    table.leave_block();
    assert_eq!(table.get_scope(), &[0, 5, 7, 9, 11]);
    table.leave_block();
    assert_eq!(table.get_scope(), &[0, 5]);
    table.leave_block();
    assert_eq!(table.get_scope(), &[0]);
}

#[test]
fn an_empty_chain_is_left_by_one_leave() {
    let mut table = TypeTable::new();
    table.enter_scope(&[]);
    assert_eq!(table.get_scope(), &[0]);
    table.leave_block();
    assert_eq!(table.get_scope(), &[0]);
}

#[test]
fn a_block_of_an_entered_chain_can_take_symbols() {
    let mut table = TypeTable::new();
    table.enter_scope(&[40, 50]);
    assert!(table.get_symbol(1).is_none());
    table.set_type(Node(1, at(51)), Some(Type::Boolean));
    assert_eq!(table.get_symbol(1).unwrap().0.scope, vec![0, 40, 50]);
    table.leave_block();
    assert!(table.get_symbol(1).is_none());
    assert_eq!(table.get_symbol_within(&[50], 1).unwrap().0.ty, Some(Type::Boolean));
}

#[test]
fn an_open_block_is_a_cycle() {
    let mut table = TypeTable::new();
    table.enter_block(12);
    table.enter_block(30);
    assert!(table.has_scope_cycle(12));
    assert!(table.has_scope_cycle(30));
    assert!(!table.has_scope_cycle(31));
    table.leave_block();
    assert!(!table.has_scope_cycle(30));
    assert!(table.has_scope_cycle(12));
}

#[test]
fn a_symbol_being_resolved_is_indeterminate() {
    let mut table = TypeTable::new();
    table.set_type(Node(2, at(1)), Some(Type::Indeterminate));
    assert!(!table.get_symbol(2).unwrap().0.ty.unwrap().is_final());
    table.set_type(Node(2, at(1)), Some(Type::Number));
    assert!(table.get_symbol(2).unwrap().0.ty.unwrap().is_final());
}

#[test]
fn a_search_through_unknown_blocks_finds_nothing() {
    let mut table = TypeTable::new();
    table.set_type(Node(2, at(1)), Some(Type::Number));
    assert!(table.get_symbol_within(&[77, 78], 2).is_none());
    assert!(table.get_symbol_within(&[], 2).is_none());
    assert_eq!(table.get_symbol_within(&[0, 77], 2).unwrap().1, 1);
}

#[test]
fn symbols_with_distant_handles() {
    let mut table = TypeTable::new();
    table.set_type(Node(1000, at(1)), Some(Type::Number));
    table.set_type(Node(0, at(2)), Some(Type::Boolean));
    assert_eq!(table.get_symbol(1000).unwrap().0.ty, Some(Type::Number));
    assert_eq!(table.get_symbol(0).unwrap().0.ty, Some(Type::Boolean));
    assert!(table.get_symbol(999).is_none());
    assert!(table.get_symbol(1001).is_none());
}

#[test]
fn type_names() {
    assert_eq!(Type::Number.name(), "Number");
    assert_eq!(Type::Boolean.name(), "Boolean");
    assert_eq!(Type::Function(3).name(), "Function");
    assert_eq!(Type::Indeterminate.name(), "Indeterminate");
}

#[test]
fn a_function_type_keeps_its_parts() {
    let mut args = VecMap::new();
    args.insert(2, Type::Number);
    args.insert(5, Type::Boolean);
    let ty = FunctionType::new(args, Type::Number);
    assert_eq!(ty.result, Type::Number);
    assert_eq!(ty.args.get(2), Some(&Type::Number));
    assert_eq!(ty.args.get(5), Some(&Type::Boolean));
    assert_eq!(ty.args.len(), 2);
}

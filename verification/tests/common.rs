use seu9cc::common::{Node, NodeKind, Type, Var, VarKind};

#[test]
fn sizes_of_the_base_types() {
    assert_eq!((Type::new_void().size(), Type::new_void().align()), (0, 0));
    assert_eq!((Type::new_bool().size(), Type::new_bool().align()), (1, 1));
    assert_eq!((Type::new_char().size(), Type::new_char().align()), (1, 1));
    assert_eq!((Type::new_int().size(), Type::new_int().align()), (4, 4));
}

#[test]
fn pointers_are_a_machine_word() {
    assert_eq!(Type::new_ptr(Type::new_char()).size(), 8);
    assert_eq!(Type::new_ptr(Type::new_char()).align(), 8);
    assert_eq!(Type::new_ptr(Type::new_void()).size(), 8);
    assert_eq!(Type::new_ptr(Type::new_array(Type::new_int(), 100)).size(), 8);
    assert_eq!(Type::new_ptr(Type::new_ptr(Type::new_int())).size(), 8);
    assert_eq!(Type::new_ptr(Type::new_func(Type::new_int(), vec![])).size(), 8);
}

#[test]
fn arrays_multiply_the_element_size() {
    let a = Type::new_array(Type::new_int(), 5);
    assert_eq!((a.size(), a.align()), (20, 4));
    let b = Type::new_array(Type::new_array(Type::new_char(), 3), 7);
    assert_eq!((b.size(), b.align()), (21, 1));
    let c = Type::new_array(Type::new_ptr(Type::new_int()), 4);
    assert_eq!((c.size(), c.align()), (32, 8));
    let d = Type::new_array(Type::new_int(), 0);
    assert_eq!((d.size(), d.align()), (0, 4));
    let e = Type::new_array(Type::new_void(), 4000000000);
    assert_eq!((e.size(), e.align()), (0, 0));
    let f = Type::new_array(Type::new_char(), u32::MAX);
    assert_eq!(f.size(), u32::MAX);
}

#[test]
fn functions_are_not_stored() {
    let f = Type::new_func(Type::new_int(), vec![Type::new_int(), Type::new_ptr(Type::new_char())]);
    assert_eq!((f.size(), f.align()), (0, 0));
    assert!(f.is_function());
    assert!(!Type::new_int().is_function());
    assert!(!Type::new_ptr(f).is_function());
}

#[test]
fn types_compare_by_shape() {
    assert_eq!(Type::new_ptr(Type::new_int()), Type::new_ptr(Type::new_int()));
    assert_ne!(Type::new_ptr(Type::new_int()), Type::new_ptr(Type::new_char()));
    assert_ne!(Type::new_array(Type::new_int(), 2), Type::new_array(Type::new_int(), 3));
    assert_ne!(Type::new_bool(), Type::new_char());
    assert_ne!(
        Type::new_func(Type::new_int(), vec![Type::new_int()]),
        Type::new_func(Type::new_int(), vec![])
    );
}

#[test]
fn copies_have_the_same_shape() {
    let t = Type::new_func(
        Type::new_ptr(Type::new_array(Type::new_int(), 3)),
        vec![Type::new_char(), Type::new_func(Type::new_void(), vec![Type::new_bool()])],
    );
    assert_eq!(t.duplicate(), t);
    assert_eq!(t.clone(), t);
    let a = Type::new_array(Type::new_int(), 6);
    assert_eq!(a.clone().size(), 24);
}

#[test]
fn variables_start_as_unassigned_locals() {
    let v = Var::new(Type::new_ptr(Type::new_int()), "p".to_string());
    assert_eq!(*v.ty(), Type::new_ptr(Type::new_int()));
    assert_eq!(v.name(), "p");
    assert!(matches!(v.kind(), VarKind::Local(0)));
    assert_eq!(v.into_type(), Type::new_ptr(Type::new_int()));
}

#[test]
fn storage_class_is_settled_later() {
    let mut v = Var::new(Type::new_int(), "counter".to_string());
    v.set_kind(VarKind::Local(3));
    assert!(matches!(v.kind(), VarKind::Local(3)));
    v.set_kind(VarKind::Global("counter".to_string()));
    match v.kind() {
        VarKind::Global(name) => assert_eq!(name, "counter"),
        other => panic!("{:?}", other),
    }
    assert_eq!(*v.ty(), Type::new_int());
    assert_eq!(v.name(), "counter");
}

fn plain(n: &Node) {
    assert_eq!(n.ty, Type::new_int());
    assert_eq!(n.name, "");
}

#[test]
fn placeholder_node() {
    let n = Node::new_defalut();
    assert!(matches!(n.kind, NodeKind::Num(0)));
    plain(&n);
}

#[test]
fn number_node() {
    let n = Node::new_num(42);
    assert!(matches!(n.kind, NodeKind::Num(42)));
    plain(&n);
}

#[test]
fn variable_definition_node() {
    let n = Node::new_var_def(Type::new_char(), "c".to_string(), Node::new_num(7));
    assert_eq!(n.ty, Type::new_char());
    assert_eq!(n.name, "c");
    match n.kind {
        NodeKind::VarDef(init) => assert!(matches!(init.kind, NodeKind::Num(7))),
        other => panic!("{:?}", other),
    }
}

fn operands(lhs: &Node, rhs: &Node) {
    assert!(matches!(lhs.kind, NodeKind::Num(1)));
    assert!(matches!(rhs.kind, NodeKind::Num(2)));
}

#[test]
fn binary_nodes() {
    let n = Node::new_add(Node::new_num(1), Node::new_num(2));
    plain(&n);
    match &n.kind {
        NodeKind::Add(l, r) => operands(l, r),
        other => panic!("{:?}", other),
    }
    let n = Node::new_sub(Node::new_num(1), Node::new_num(2));
    plain(&n);
    match &n.kind {
        NodeKind::Sub(l, r) => operands(l, r),
        other => panic!("{:?}", other),
    }
    let n = Node::new_mul(Node::new_num(1), Node::new_num(2));
    plain(&n);
    match &n.kind {
        NodeKind::Mul(l, r) => operands(l, r),
        other => panic!("{:?}", other),
    }
    let n = Node::new_div(Node::new_num(1), Node::new_num(2));
    plain(&n);
    match &n.kind {
        NodeKind::Div(l, r) => operands(l, r),
        other => panic!("{:?}", other),
    }
    let n = Node::new_eq(Node::new_num(1), Node::new_num(2));
    plain(&n);
    match &n.kind {
        NodeKind::Eq(l, r) => operands(l, r),
        other => panic!("{:?}", other),
    }
    let n = Node::new_ne(Node::new_num(1), Node::new_num(2));
    plain(&n);
    match &n.kind {
        NodeKind::Ne(l, r) => operands(l, r),
        other => panic!("{:?}", other),
    }
    let n = Node::new_lt(Node::new_num(1), Node::new_num(2));
    plain(&n);
    match &n.kind {
        NodeKind::Lt(l, r) => operands(l, r),
        other => panic!("{:?}", other),
    }
    let n = Node::new_le(Node::new_num(1), Node::new_num(2));
    plain(&n);
    match &n.kind {
        NodeKind::Le(l, r) => operands(l, r),
        other => panic!("{:?}", other),
    }
}

#[test]
fn nodes_are_copied_with_what_they_own() {
    let tree = Node::new_var_def(
        Type::new_ptr(Type::new_int()),
        "p".to_string(),
        Node::new_add(Node::new_num(1), Node::new_mul(Node::new_num(2), Node::new_num(3))),
    );
    let copy = tree.clone();
    assert_eq!(format!("{:?}", copy), format!("{:?}", tree));
    assert_eq!(copy.name, "p");
    let block = Node {
        kind: NodeKind::Block(vec![Node::new_num(1), tree]),
        ty: Type::new_int(),
        name: String::new(),
    };
    let call = Node {
        kind: NodeKind::FuncCall("f".to_string(), vec![block, Node::new_num(9)]),
        ty: Type::new_int(),
        name: String::new(),
    };
    assert_eq!(format!("{:?}", call.duplicate()), format!("{:?}", call));
}

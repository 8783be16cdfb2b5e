//! The type model and the syntax-tree vocabulary shared by the parser and
//! the stages that consume its output.

use vstd::prelude::*;

verus! {

/// The storage shape of a value, as a mathematical tree.
pub enum TypeView {
    Void,
    Bool,
    Char,
    Int,
    Pointer(Box<TypeView>),
    Array(Box<TypeView>, u32),
    Function(Box<TypeView>, Seq<TypeView>),
}

/// Width of a machine word, which is also the size of every pointer.
pub const POINTER_SIZE: u32 = 8;

/// Number of bytes a value of the given shape occupies.
pub open spec fn size_of(t: TypeView) -> nat
    decreases t,
{
    match t {
        TypeView::Void => 0,
        TypeView::Bool => 1,
        TypeView::Char => 1,
        TypeView::Int => 4,
        TypeView::Pointer(_) => 8,
        TypeView::Array(elem, len) => size_of(*elem) * (len as nat),
        TypeView::Function(_, _) => 0,
    }
}

/// Alignment in bytes that a value of the given shape requires.
pub open spec fn align_of(t: TypeView) -> nat
    decreases t,
{
    match t {
        TypeView::Void => 0,
        TypeView::Bool => 1,
        TypeView::Char => 1,
        TypeView::Int => 4,
        TypeView::Pointer(_) => 8,
        TypeView::Array(elem, _) => align_of(*elem),
        TypeView::Function(_, _) => 0,
    }
}

/// A pointer takes a machine word, whatever it points to.
pub proof fn lemma_pointer_size(pointee: TypeView)
    ensures
        size_of(TypeView::Pointer(Box::new(pointee))) == 8,
        align_of(TypeView::Pointer(Box::new(pointee))) == 8,
{
}

/// An array takes the size of its element once for each element, and is
/// aligned as its element is.
pub proof fn lemma_array_size(elem: TypeView, len: u32)
    ensures
        size_of(TypeView::Array(Box::new(elem), len)) == size_of(elem) * len,
        align_of(TypeView::Array(Box::new(elem), len)) == align_of(elem),
{
}

/// The type of a value: its shape together with the size and alignment
/// that follow from the shape.  A type is built once and never changed;
/// it owns the types it is made of.
#[derive(Debug, PartialEq, Eq)]
pub struct Type {
    size: u32,
    align: u32,
    kind: TypeKind,
}

#[derive(Debug, PartialEq, Eq)]
enum TypeKind {
    Void,
    Bool,
    Char,
    Int,
    Ptr(Box<Type>),
    Array(Box<Type>, u32),
    Func(Box<Type>, Vec<Type>),
}

impl View for Type {
    type V = TypeView;

    closed spec fn view(&self) -> TypeView {
        self.shape()
    }
}

impl Type {
    /// The shape of this type, read off its representation.
    closed spec fn shape(&self) -> TypeView
        decreases self,
    {
        match self.kind {
            TypeKind::Void => TypeView::Void,
            TypeKind::Bool => TypeView::Bool,
            TypeKind::Char => TypeView::Char,
            TypeKind::Int => TypeView::Int,
            TypeKind::Ptr(t) => TypeView::Pointer(Box::new(t.shape())),
            TypeKind::Array(t, len) => TypeView::Array(Box::new(t.shape()), len),
            TypeKind::Func(ret, params) => TypeView::Function(
                Box::new(ret.shape()),
                Seq::new(
                    params.len() as nat,
                    |i: int|
                        if 0 <= i < params.len() {
                            params[i].shape()
                        } else {
                            TypeView::Void
                        },
                ),
            ),
        }
    }

    /// Size and alignment are fixed when the type is built and always agree
    /// with its shape.
    #[verifier::type_invariant]
    closed spec fn well_formed(&self) -> bool {
        &&& self.size == size_of(self@)
        &&& self.align == align_of(self@)
    }

    /// The type `void`.
    pub fn new_void() -> (t: Type)
        ensures
            t@ == TypeView::Void,
            size_of(t@) == 0,
            align_of(t@) == 0,
    {
        Type { size: 0, align: 0, kind: TypeKind::Void }
    }

    /// The type `_Bool`.
    pub fn new_bool() -> (t: Type)
        ensures
            t@ == TypeView::Bool,
            size_of(t@) == 1,
            align_of(t@) == 1,
    {
        Type { size: 1, align: 1, kind: TypeKind::Bool }
    }

    /// The type `char`.
    pub fn new_char() -> (t: Type)
        ensures
            t@ == TypeView::Char,
            size_of(t@) == 1,
            align_of(t@) == 1,
    {
        Type { size: 1, align: 1, kind: TypeKind::Char }
    }

    /// The type `int`.
    pub fn new_int() -> (t: Type)
        ensures
            t@ == TypeView::Int,
            size_of(t@) == 4,
            align_of(t@) == 4,
    {
        Type { size: 4, align: 4, kind: TypeKind::Int }
    }

    /// The type of pointers to `t`.  A pointer takes a machine word,
    /// whatever it points to.
    pub fn new_ptr(t: Type) -> (p: Type)
        ensures
            p@ == TypeView::Pointer(Box::new(t@)),
            size_of(p@) == 8,
            align_of(p@) == 8,
    {
        Type { size: POINTER_SIZE, align: POINTER_SIZE, kind: TypeKind::Ptr(Box::new(t)) }
    }

    /// The type of arrays of `len` elements of type `t`.  The size of the
    /// array has to fit 32 bits.
    pub fn new_array(t: Type, len: u32) -> (a: Type)
        requires
            size_of(t@) * len <= u32::MAX,
        ensures
            a@ == TypeView::Array(Box::new(t@), len),
            size_of(a@) == size_of(t@) * len,
            align_of(a@) == align_of(t@),
    {
        proof {
            use_type_invariant(&t);
        }
        let size = t.size * len;
        let align = t.align;
        Type { size, align, kind: TypeKind::Array(Box::new(t), len) }
    }

    /// The type of functions that return `t` and take `params`.  A function
    /// is no value that is stored: its size and alignment are zero.
    pub fn new_func(t: Type, params: Vec<Type>) -> (f: Type)
        ensures
            f@ == TypeView::Function(Box::new(t@), params@.map_values(|p: Type| p@)),
            size_of(f@) == 0,
            align_of(f@) == 0,
    {
        let ghost shapes = params@.map_values(|p: Type| p@);
        let f = Type { size: 0, align: 0, kind: TypeKind::Func(Box::new(t), params) };
        assert(f@->Function_1 =~= shapes);
        f
    }

    /// A copy of this type.
    pub fn duplicate(&self) -> (t: Type)
        ensures
            t@ == self@,
        decreases self,
    {
        proof {
            use_type_invariant(self);
        }
        let kind = match &self.kind {
            TypeKind::Void => TypeKind::Void,
            TypeKind::Bool => TypeKind::Bool,
            TypeKind::Char => TypeKind::Char,
            TypeKind::Int => TypeKind::Int,
            TypeKind::Ptr(t) => TypeKind::Ptr(Box::new(t.duplicate())),
            TypeKind::Array(t, len) => TypeKind::Array(Box::new(t.duplicate()), *len),
            TypeKind::Func(ret, params) => {
                let mut copies: Vec<Type> = Vec::new();
                let mut i: usize = 0;
                while i < params.len()
                    invariant
                        i <= params.len(),
                        copies.len() == i,
                        forall|j: int| 0 <= j < i ==> (#[trigger] copies[j])@ == params[j]@,
                        self.kind == TypeKind::Func(*ret, *params),
                    decreases params.len() - i,
                {
                    assert(decreases_to!(self.kind => self.kind->Func_1));
                    copies.push(params[i].duplicate());
                    i += 1;
                }
                let copy = TypeKind::Func(Box::new(ret.duplicate()), copies);
                let ghost made = Type { size: self.size, align: self.align, kind: copy };
                assert(made@->Function_1 =~= self@->Function_1);
                copy
            },
        };
        Type { size: self.size, align: self.align, kind }
    }

    /// Whether this is a function type.
    pub fn is_function(&self) -> (r: bool)
        ensures
            r == (self@ is Function),
    {
        match &self.kind {
            TypeKind::Func(_, _) => true,
            _ => false,
        }
    }

    /// Number of bytes a value of this type occupies.
    pub fn size(&self) -> (n: u32)
        ensures
            n == size_of(self@),
    {
        proof {
            use_type_invariant(self);
        }
        self.size
    }

    /// Alignment in bytes that a value of this type requires.
    pub fn align(&self) -> (n: u32)
        ensures
            n == align_of(self@),
    {
        proof {
            use_type_invariant(self);
        }
        self.align
    }
}

impl Clone for Type {
    fn clone(&self) -> (t: Type)
        ensures
            t@ == self@,
    {
        self.duplicate()
    }
}

/// The storage class of a variable.
#[derive(Debug, Clone)]
pub enum VarKind {
    /// A variable in a stack frame, with its slot in the frame.
    Local(u32),
    /// A variable addressed by its name.
    Global(String),
}

/// A named, typed storage location.
#[derive(Debug, Clone)]
pub struct Var {
    ty: Type,
    name: String,
    kind: VarKind,
}

impl Var {
    /// The type of the variable.
    pub closed spec fn spec_ty(&self) -> &Type {
        &self.ty
    }

    /// The name of the variable.
    pub closed spec fn spec_name(&self) -> &String {
        &self.name
    }

    /// The storage class of the variable.
    pub closed spec fn spec_kind(&self) -> &VarKind {
        &self.kind
    }

    /// A local variable whose slot in the frame is not assigned yet.
    pub fn new(ty: Type, name: String) -> (v: Var)
        ensures
            *v.spec_ty() == ty,
            *v.spec_name() == name,
            *v.spec_kind() == VarKind::Local(0),
    {
        Var { ty, name, kind: VarKind::Local(0) }
    }

    /// The type of the variable.
    #[verifier::when_used_as_spec(spec_ty)]
    pub fn ty(&self) -> (t: &Type)
        ensures
            t == self.spec_ty(),
    {
        &self.ty
    }

    /// The name of the variable.
    #[verifier::when_used_as_spec(spec_name)]
    pub fn name(&self) -> (n: &String)
        ensures
            n == self.spec_name(),
    {
        &self.name
    }

    /// The storage class of the variable.
    #[verifier::when_used_as_spec(spec_kind)]
    pub fn kind(&self) -> (k: &VarKind)
        ensures
            k == self.spec_kind(),
    {
        &self.kind
    }

    /// Settles the storage class of the variable, which a later stage
    /// does once it knows where the variable lives.
    pub fn set_kind(&mut self, kind: VarKind)
        ensures
            *final(self).spec_kind() == kind,
            final(self).spec_ty() == old(self).spec_ty(),
            final(self).spec_name() == old(self).spec_name(),
    {
        self.kind = kind;
    }

    /// Gives up the variable for its type.
    pub fn into_type(self) -> (t: Type)
        ensures
            t == *self.spec_ty(),
    {
        self.ty
    }
}

/// A node of the syntax tree as a mathematical value.
pub struct NodeView {
    pub kind: NodeKindView,
    pub ty: TypeView,
    pub name: Seq<char>,
}

/// What a node is and which nodes it owns, as a mathematical value.
pub enum NodeKindView {
    Num(u32),
    VarDef(Box<NodeView>),
    Add(Box<NodeView>, Box<NodeView>),
    Sub(Box<NodeView>, Box<NodeView>),
    Mul(Box<NodeView>, Box<NodeView>),
    Div(Box<NodeView>, Box<NodeView>),
    Eq(Box<NodeView>, Box<NodeView>),
    Ne(Box<NodeView>, Box<NodeView>),
    Lt(Box<NodeView>, Box<NodeView>),
    Le(Box<NodeView>, Box<NodeView>),
    Assign(Box<NodeView>, Box<NodeView>),
    Addr(Box<NodeView>),
    Deref(Box<NodeView>),
    Return(Box<NodeView>),
    If(Box<NodeView>, Box<NodeView>, Box<NodeView>),
    For(Box<NodeView>, Box<NodeView>, Box<NodeView>, Box<NodeView>),
    Block(Seq<NodeView>),
    FuncCall(Seq<char>, Seq<NodeView>),
}

impl View for Node {
    type V = NodeView;

    open spec fn view(&self) -> NodeView {
        self.tree()
    }
}

/// A node of the syntax tree.  Every node carries a type, which is `int`
/// until a later stage infers another, and a name, which is empty where
/// the node has none.
#[derive(Debug)]
pub struct Node {
    pub kind: NodeKind,
    pub ty: Type,
    pub name: String,
}

/// What a node is, together with the nodes it owns.  A slot for which the
/// source has nothing holds a placeholder, so that no slot is ever empty.
#[derive(Debug)]
pub enum NodeKind {
    Num(u32),
    VarDef(Box<Node>),
    Add(Box<Node>, Box<Node>),
    Sub(Box<Node>, Box<Node>),
    Mul(Box<Node>, Box<Node>),
    Div(Box<Node>, Box<Node>),
    Eq(Box<Node>, Box<Node>),
    Ne(Box<Node>, Box<Node>),
    Lt(Box<Node>, Box<Node>),
    Le(Box<Node>, Box<Node>),
    Assign(Box<Node>, Box<Node>),
    Addr(Box<Node>),
    Deref(Box<Node>),
    Return(Box<Node>),
    If(Box<Node>, Box<Node>, Box<Node>),
    For(Box<Node>, Box<Node>, Box<Node>, Box<Node>),
    Block(Vec<Node>),
    FuncCall(String, Vec<Node>),
}

impl Clone for Node {
    fn clone(&self) -> (n: Node)
        ensures
            n@ == self@,
    {
        self.duplicate()
    }
}

impl Node {
    /// The tree that this node is the root of.
    pub open spec fn tree(&self) -> NodeView
        decreases self,
    {
        NodeView { kind: self.kind_tree(), ty: self.ty@, name: self.name@ }
    }

    /// What this node is, with the trees of the nodes it owns.
    pub open spec fn kind_tree(&self) -> NodeKindView
        decreases self, 0int,
    {
        match self.kind {
            NodeKind::Num(val) => NodeKindView::Num(val),
            NodeKind::Add(lhs, rhs) => NodeKindView::Add(Box::new(lhs.tree()), Box::new(rhs.tree())),
            NodeKind::Sub(lhs, rhs) => NodeKindView::Sub(Box::new(lhs.tree()), Box::new(rhs.tree())),
            NodeKind::Mul(lhs, rhs) => NodeKindView::Mul(Box::new(lhs.tree()), Box::new(rhs.tree())),
            NodeKind::Div(lhs, rhs) => NodeKindView::Div(Box::new(lhs.tree()), Box::new(rhs.tree())),
            NodeKind::Eq(lhs, rhs) => NodeKindView::Eq(Box::new(lhs.tree()), Box::new(rhs.tree())),
            NodeKind::Ne(lhs, rhs) => NodeKindView::Ne(Box::new(lhs.tree()), Box::new(rhs.tree())),
            NodeKind::Lt(lhs, rhs) => NodeKindView::Lt(Box::new(lhs.tree()), Box::new(rhs.tree())),
            NodeKind::Le(lhs, rhs) => NodeKindView::Le(Box::new(lhs.tree()), Box::new(rhs.tree())),
            NodeKind::Assign(lhs, rhs) => NodeKindView::Assign(Box::new(lhs.tree()), Box::new(rhs.tree())),
            NodeKind::VarDef(child) => NodeKindView::VarDef(Box::new(child.tree())),
            NodeKind::Addr(child) => NodeKindView::Addr(Box::new(child.tree())),
            NodeKind::Deref(child) => NodeKindView::Deref(Box::new(child.tree())),
            NodeKind::Return(child) => NodeKindView::Return(Box::new(child.tree())),
            NodeKind::If(cond, then, els) => NodeKindView::If(
                Box::new(cond.tree()),
                Box::new(then.tree()),
                Box::new(els.tree()),
            ),
            NodeKind::For(init, cond, step, body) => NodeKindView::For(
                Box::new(init.tree()),
                Box::new(cond.tree()),
                Box::new(step.tree()),
                Box::new(body.tree()),
            ),
            NodeKind::Block(nodes) => NodeKindView::Block(Self::trees(nodes)),
            NodeKind::FuncCall(callee, args) => NodeKindView::FuncCall(callee@, Self::trees(args)),
        }
    }

    /// The trees of a list of nodes, in order.
    pub open spec fn trees(nodes: Vec<Node>) -> Seq<NodeView>
        decreases nodes,
    {
        Seq::new(
            nodes.len() as nat,
            |i: int|
                if 0 <= i < nodes.len() {
                    nodes[i].tree()
                } else {
                    NodeView {
                        kind: NodeKindView::Num(0),
                        ty: TypeView::Int,
                        name: Seq::<char>::empty(),
                    }
                },
        )
    }

    /// A copy of this node and of the nodes it owns.
    pub fn duplicate(&self) -> (n: Node)
        ensures
            n@ == self@,
        decreases self,
    {
        let kind = match &self.kind {
            NodeKind::Num(val) => NodeKind::Num(*val),
            NodeKind::Add(lhs, rhs) => NodeKind::Add(
                Box::new(lhs.duplicate()),
                Box::new(rhs.duplicate()),
            ),
            NodeKind::Sub(lhs, rhs) => NodeKind::Sub(
                Box::new(lhs.duplicate()),
                Box::new(rhs.duplicate()),
            ),
            NodeKind::Mul(lhs, rhs) => NodeKind::Mul(
                Box::new(lhs.duplicate()),
                Box::new(rhs.duplicate()),
            ),
            NodeKind::Div(lhs, rhs) => NodeKind::Div(
                Box::new(lhs.duplicate()),
                Box::new(rhs.duplicate()),
            ),
            NodeKind::Eq(lhs, rhs) => NodeKind::Eq(
                Box::new(lhs.duplicate()),
                Box::new(rhs.duplicate()),
            ),
            NodeKind::Ne(lhs, rhs) => NodeKind::Ne(
                Box::new(lhs.duplicate()),
                Box::new(rhs.duplicate()),
            ),
            NodeKind::Lt(lhs, rhs) => NodeKind::Lt(
                Box::new(lhs.duplicate()),
                Box::new(rhs.duplicate()),
            ),
            NodeKind::Le(lhs, rhs) => NodeKind::Le(
                Box::new(lhs.duplicate()),
                Box::new(rhs.duplicate()),
            ),
            NodeKind::Assign(lhs, rhs) => NodeKind::Assign(
                Box::new(lhs.duplicate()),
                Box::new(rhs.duplicate()),
            ),
            NodeKind::VarDef(child) => NodeKind::VarDef(Box::new(child.duplicate())),
            NodeKind::Addr(child) => NodeKind::Addr(Box::new(child.duplicate())),
            NodeKind::Deref(child) => NodeKind::Deref(Box::new(child.duplicate())),
            NodeKind::Return(child) => NodeKind::Return(Box::new(child.duplicate())),
            NodeKind::If(cond, then, els) => NodeKind::If(
                Box::new(cond.duplicate()),
                Box::new(then.duplicate()),
                Box::new(els.duplicate()),
            ),
            NodeKind::For(init, cond, step, body) => NodeKind::For(
                Box::new(init.duplicate()),
                Box::new(cond.duplicate()),
                Box::new(step.duplicate()),
                Box::new(body.duplicate()),
            ),
            NodeKind::Block(nodes) => {
                assert(decreases_to!(self.kind => self.kind->Block_0));
                NodeKind::Block(Self::duplicate_all(nodes))
            },
            NodeKind::FuncCall(callee, args) => {
                assert(decreases_to!(self.kind => self.kind->FuncCall_1));
                NodeKind::FuncCall(callee.clone(), Self::duplicate_all(args))
            },
        };
        Node { kind, ty: self.ty.duplicate(), name: self.name.clone() }
    }

    /// Copies of the given nodes, in order.
    fn duplicate_all(nodes: &Vec<Node>) -> (copies: Vec<Node>)
        ensures
            Self::trees(copies) == Self::trees(*nodes),
        decreases nodes,
    {
        let mut copies: Vec<Node> = Vec::new();
        let mut i: usize = 0;
        while i < nodes.len()
            invariant
                i <= nodes.len(),
                copies.len() == i,
                forall|j: int| 0 <= j < i ==> (#[trigger] copies[j])@ == nodes[j]@,
            decreases nodes.len() - i,
        {
            copies.push(nodes[i].duplicate());
            i += 1;
        }
        assert(Self::trees(copies) =~= Self::trees(*nodes));
        copies
    }

    /// Whether the node is untyped and unnamed: its type is `int` and its
    /// name is empty.
    pub open spec fn is_plain(&self) -> bool {
        &&& self.ty@ == TypeView::Int
        &&& self.name@ == Seq::<char>::empty()
    }

    /// Whether the node is the placeholder that fills a slot for which the
    /// source has nothing: the literal zero.
    pub open spec fn is_placeholder(&self) -> bool {
        &&& self.kind == NodeKind::Num(0)
        &&& self.is_plain()
    }

    /// Whether the node declares `name` with the type `ty` and without an
    /// initializer.
    pub open spec fn is_declaration(&self, ty: TypeView, name: Seq<char>) -> bool {
        &&& self.ty@ == ty
        &&& self.name@ == name
        &&& self.kind matches NodeKind::VarDef(init)
        &&& init.is_placeholder()
    }

    /// The placeholder node.
    pub fn new_defalut() -> (n: Node)
        ensures
            n.is_placeholder(),
    {
        Node { kind: NodeKind::Num(0), ty: Type::new_int(), name: String::new() }
    }

    /// The integer literal `val`.
    pub fn new_num(val: u32) -> (n: Node)
        ensures
            n.kind == NodeKind::Num(val),
            n.is_plain(),
    {
        Node { kind: NodeKind::Num(val), ty: Type::new_int(), name: String::new() }
    }

    /// The definition of the variable `name` of type `ty`, initialised
    /// with `init`.
    pub fn new_var_def(ty: Type, name: String, init: Node) -> (n: Node)
        ensures
            n.kind == NodeKind::VarDef(Box::new(init)),
            n.ty == ty,
            n.name == name,
    {
        Node { kind: NodeKind::VarDef(Box::new(init)), ty, name }
    }

    /// The sum `lhs + rhs`.
    pub fn new_add(lhs: Node, rhs: Node) -> (n: Node)
        ensures
            n.kind == NodeKind::Add(Box::new(lhs), Box::new(rhs)),
            n.is_plain(),
    {
        Node {
            kind: NodeKind::Add(Box::new(lhs), Box::new(rhs)),
            ty: Type::new_int(),
            name: String::new(),
        }
    }

    /// The difference `lhs - rhs`.
    pub fn new_sub(lhs: Node, rhs: Node) -> (n: Node)
        ensures
            n.kind == NodeKind::Sub(Box::new(lhs), Box::new(rhs)),
            n.is_plain(),
    {
        Node {
            kind: NodeKind::Sub(Box::new(lhs), Box::new(rhs)),
            ty: Type::new_int(),
            name: String::new(),
        }
    }

    /// The product `lhs * rhs`.
    pub fn new_mul(lhs: Node, rhs: Node) -> (n: Node)
        ensures
            n.kind == NodeKind::Mul(Box::new(lhs), Box::new(rhs)),
            n.is_plain(),
    {
        Node {
            kind: NodeKind::Mul(Box::new(lhs), Box::new(rhs)),
            ty: Type::new_int(),
            name: String::new(),
        }
    }

    /// The quotient `lhs / rhs`.
    pub fn new_div(lhs: Node, rhs: Node) -> (n: Node)
        ensures
            n.kind == NodeKind::Div(Box::new(lhs), Box::new(rhs)),
            n.is_plain(),
    {
        Node {
            kind: NodeKind::Div(Box::new(lhs), Box::new(rhs)),
            ty: Type::new_int(),
            name: String::new(),
        }
    }

    /// The comparison `lhs == rhs`.
    pub fn new_eq(lhs: Node, rhs: Node) -> (n: Node)
        ensures
            n.kind == NodeKind::Eq(Box::new(lhs), Box::new(rhs)),
            n.is_plain(),
    {
        Node {
            kind: NodeKind::Eq(Box::new(lhs), Box::new(rhs)),
            ty: Type::new_int(),
            name: String::new(),
        }
    }

    /// The comparison `lhs != rhs`.
    pub fn new_ne(lhs: Node, rhs: Node) -> (n: Node)
        ensures
            n.kind == NodeKind::Ne(Box::new(lhs), Box::new(rhs)),
            n.is_plain(),
    {
        Node {
            kind: NodeKind::Ne(Box::new(lhs), Box::new(rhs)),
            ty: Type::new_int(),
            name: String::new(),
        }
    }

    /// The comparison `lhs < rhs`.
    pub fn new_lt(lhs: Node, rhs: Node) -> (n: Node)
        ensures
            n.kind == NodeKind::Lt(Box::new(lhs), Box::new(rhs)),
            n.is_plain(),
    {
        Node {
            kind: NodeKind::Lt(Box::new(lhs), Box::new(rhs)),
            ty: Type::new_int(),
            name: String::new(),
        }
    }

    /// The comparison `lhs <= rhs`.
    pub fn new_le(lhs: Node, rhs: Node) -> (n: Node)
        ensures
            n.kind == NodeKind::Le(Box::new(lhs), Box::new(rhs)),
            n.is_plain(),
    {
        Node {
            kind: NodeKind::Le(Box::new(lhs), Box::new(rhs)),
            ty: Type::new_int(),
            name: String::new(),
        }
    }
}

} // verus!

//! Abstract syntax of gaut programs, together with the mathematical model of
//! each node.
//!
//! Every syntax type has a view: a value made of `Seq`, `Option` and plain
//! enums only, in which names are sequences of characters. All contracts in
//! this crate speak about views, so two trees that print the same are the
//! same to the checker, the evaluator and the C emitter.

use vstd::prelude::*;

verus! {

// ---------------------------------------------------------------------------
// Models
// ---------------------------------------------------------------------------
/// The text of an identifier.
pub type Name = Seq<char>;

/// A dotted path `a.b.c` as the list of its segments.
pub type PathV = Seq<Name>;

/// Model of [`Type`].
pub enum TypeV {
    Named(Name),
    Ref(Box<TypeV>),
    Record(Seq<FieldV>),
}

/// Model of [`FieldType`].
pub struct FieldV {
    pub name: Name,
    pub ty: TypeV,
}

/// Model of [`Param`].
pub struct ParamV {
    pub mutable: bool,
    pub name: Name,
    pub ty: TypeV,
}

/// Model of [`Literal`].
pub enum LiteralV {
    Int(i64),
    Bool(bool),
    Str(Seq<char>),
    Unit,
}

/// Model of [`Expr`].
pub enum ExprV {
    Literal(LiteralV),
    Path(PathV),
    Copy(Box<ExprV>),
    Ref(Box<ExprV>),
    FuncCall { callee: PathV, args: Seq<ExprV> },
    If { cond: Box<ExprV>, then_branch: Box<ExprV>, else_branch: Box<ExprV> },
    Block(BlockV),
    RecordLit(Seq<FieldInitV>),
    Unary { op: UnaryOp, expr: Box<ExprV> },
    Binary { left: Box<ExprV>, op: BinaryOp, right: Box<ExprV> },
}

/// Model of [`FieldInit`].
pub struct FieldInitV {
    pub name: Name,
    pub value: ExprV,
}

/// Model of [`Block`].
pub struct BlockV {
    pub stmts: Seq<StmtV>,
    pub tail: Option<Box<ExprV>>,
}

/// Model of [`Stmt`].
pub enum StmtV {
    Binding(BindingV),
    Assign { target: PathV, value: ExprV },
    Expr(ExprV),
}

/// Model of [`Binding`].
pub struct BindingV {
    pub mutable: bool,
    pub name: Name,
    pub ty: TypeV,
    pub value: ExprV,
}

/// Model of [`FuncDecl`].
pub struct FuncDeclV {
    pub name: Name,
    pub params: Seq<ParamV>,
    pub ret: Option<TypeV>,
    pub body: ExprV,
}

/// Model of [`Decl`].
pub enum DeclV {
    Import(Name),
    Global(BindingV),
    Let(BindingV),
    Type { name: Name, ty: TypeV },
    Func(FuncDeclV),
}

/// Whether a type mentions a reference anywhere, also inside a record.
pub open spec fn contains_ref(ty: TypeV) -> bool
    decreases ty,
{
    match ty {
        TypeV::Named(_) => false,
        TypeV::Ref(_) => true,
        TypeV::Record(fields) => exists|i: int|
            0 <= i < fields.len() && contains_ref(#[trigger] fields[i].ty),
    }
}

/// The type named `name`.
pub open spec fn named(name: &str) -> TypeV {
    TypeV::Named(name@)
}

// ---------------------------------------------------------------------------
// Syntax
// ---------------------------------------------------------------------------
/// A program: its declarations in order.
#[derive(Debug, PartialEq, Eq)]
pub struct Program {
    pub decls: Vec<Decl>,
}

/// A declaration at the top level.
#[derive(Debug, PartialEq, Eq)]
pub enum Decl {
    Import(ImportDecl),
    Global(Binding),
    Let(Binding),
    Type(TypeDecl),
    Func(FuncDecl),
}

#[derive(Debug, PartialEq, Eq)]
pub struct ImportDecl {
    pub module: Ident,
}

/// A name.
#[derive(Debug, PartialEq, Eq)]
pub struct Ident(pub String);

/// A binding: `[mut] name: type = value`.
#[derive(Debug, PartialEq, Eq)]
pub struct Binding {
    pub mutable: bool,
    pub name: Ident,
    pub ty: Type,
    pub value: Expr,
}

#[derive(Debug, PartialEq, Eq)]
pub struct TypeDecl {
    pub name: Ident,
    pub ty: Type,
}

/// A function; `ret` is `None` where the return type is left to be
/// inferred.
#[derive(Debug, PartialEq, Eq)]
pub struct FuncDecl {
    pub name: Ident,
    pub params: Vec<Param>,
    pub ret: Option<Type>,
    pub body: Expr,
}

#[derive(Debug, PartialEq, Eq)]
pub struct Param {
    pub mutable: bool,
    pub name: Ident,
    pub ty: Type,
}

#[derive(Debug, PartialEq, Eq)]
pub enum Stmt {
    Binding(Binding),
    Assign(Assign),
    Expr(Expr),
}

#[derive(Debug, PartialEq, Eq)]
pub struct Assign {
    pub target: Path,
    pub value: Expr,
}

/// A block: statements and an optional tail, whose value is the value of
/// the block; without a tail the block has the unit value.
#[derive(Debug, PartialEq, Eq)]
pub struct Block {
    pub stmts: Vec<Stmt>,
    pub tail: Option<Box<Expr>>,
}

/// An expression. `Copy` and `Ref` read what they hold without consuming
/// it; everything else is read by move.
#[derive(Debug, PartialEq, Eq)]
pub enum Expr {
    Literal(Literal),
    Path(Path),
    Copy(Box<Expr>),
    Ref(Box<Expr>),
    FuncCall(FuncCall),
    If(Box<IfExpr>),
    Block(Block),
    RecordLit(RecordLit),
    Unary(UnaryExpr),
    Binary(BinaryExpr),
}

#[derive(Debug, PartialEq, Eq)]
pub struct FuncCall {
    pub callee: Path,
    pub args: Vec<Expr>,
}

#[derive(Debug, PartialEq, Eq)]
pub struct IfExpr {
    pub cond: Expr,
    pub then_branch: Expr,
    pub else_branch: Expr,
}

#[derive(Debug, PartialEq, Eq)]
pub struct RecordLit {
    pub fields: Vec<FieldInit>,
}

#[derive(Debug, PartialEq, Eq)]
pub struct FieldInit {
    pub name: Ident,
    pub value: Expr,
}

#[derive(Debug, PartialEq, Eq)]
pub struct UnaryExpr {
    pub op: UnaryOp,
    pub expr: Box<Expr>,
}

#[derive(Debug, PartialEq, Eq)]
pub struct BinaryExpr {
    pub left: Box<Expr>,
    pub op: BinaryOp,
    pub right: Box<Expr>,
}

#[derive(Debug, Clone, Copy, PartialEq, Eq)]
pub enum UnaryOp {
    Neg,
    Not,
}

#[derive(Debug, Clone, Copy, PartialEq, Eq)]
pub enum BinaryOp {
    Mul,
    Div,
    Add,
    Sub,
    Lt,
    Eq,
    And,
    Or,
}

#[derive(Debug, PartialEq, Eq)]
pub enum Literal {
    Int(i64),
    Bool(bool),
    Str(String),
    Unit,
}

/// A type: a name, a reference, or a record of named fields in order.
#[derive(Debug, PartialEq, Eq)]
pub enum Type {
    Named(Ident),
    Ref(Box<Type>),
    Record(Vec<FieldType>),
}

#[derive(Debug, PartialEq, Eq)]
pub struct FieldType {
    pub name: Ident,
    pub ty: Type,
}

/// A dotted path: a binding and the fields to follow from it.
#[derive(Debug, PartialEq, Eq)]
pub struct Path(pub Vec<Ident>);

// ---------------------------------------------------------------------------
// Views
// ---------------------------------------------------------------------------
impl View for Ident {
    type V = Name;

    open spec fn view(&self) -> Name {
        self.0@
    }
}

/// The segments of a list of identifiers.
pub open spec fn idents_view(ids: Seq<Ident>) -> PathV {
    Seq::new(ids.len(), |i: int| ids[i]@)
}

impl View for Path {
    type V = PathV;

    open spec fn view(&self) -> PathV {
        idents_view(self.0@)
    }
}

pub open spec fn type_view(t: Type) -> TypeV
    decreases t,
{
    match t {
        Type::Named(id) => TypeV::Named(id@),
        Type::Ref(inner) => TypeV::Ref(Box::new(type_view(*inner))),
        Type::Record(fields) => TypeV::Record(
            Seq::new(
                fields@.len(),
                |i: int|
                    if 0 <= i < fields@.len() {
                        FieldV { name: fields@[i].name@, ty: type_view(fields@[i].ty) }
                    } else {
                        arbitrary()
                    },
            ),
        ),
    }
}

impl View for Type {
    type V = TypeV;

    open spec fn view(&self) -> TypeV {
        type_view(*self)
    }
}

impl View for FieldType {
    type V = FieldV;

    open spec fn view(&self) -> FieldV {
        FieldV { name: self.name@, ty: self.ty@ }
    }
}

impl View for Param {
    type V = ParamV;

    open spec fn view(&self) -> ParamV {
        ParamV { mutable: self.mutable, name: self.name@, ty: self.ty@ }
    }
}

/// The models of a list of parameters.
pub open spec fn params_view(ps: Seq<Param>) -> Seq<ParamV> {
    Seq::new(ps.len(), |i: int| ps[i]@)
}

/// The model of an optional type.
pub open spec fn opt_type_view(t: Option<Type>) -> Option<TypeV> {
    match t {
        Some(t) => Some(t@),
        None => None,
    }
}

impl View for Literal {
    type V = LiteralV;

    open spec fn view(&self) -> LiteralV {
        match self {
            Literal::Int(i) => LiteralV::Int(*i),
            Literal::Bool(b) => LiteralV::Bool(*b),
            Literal::Str(s) => LiteralV::Str(s@),
            Literal::Unit => LiteralV::Unit,
        }
    }
}

pub open spec fn expr_view(e: Expr) -> ExprV
    decreases e,
{
    match e {
        Expr::Literal(l) => ExprV::Literal(l@),
        Expr::Path(p) => ExprV::Path(p@),
        Expr::Copy(inner) => ExprV::Copy(Box::new(expr_view(*inner))),
        Expr::Ref(inner) => ExprV::Ref(Box::new(expr_view(*inner))),
        Expr::FuncCall(fc) => ExprV::FuncCall {
            callee: fc.callee@,
            args: Seq::new(
                fc.args@.len(),
                |i: int|
                    if 0 <= i < fc.args@.len() {
                        expr_view(fc.args@[i])
                    } else {
                        arbitrary()
                    },
            ),
        },
        Expr::If(ife) => ExprV::If {
            cond: Box::new(expr_view(ife.cond)),
            then_branch: Box::new(expr_view(ife.then_branch)),
            else_branch: Box::new(expr_view(ife.else_branch)),
        },
        Expr::Block(b) => ExprV::Block(block_view(b)),
        Expr::RecordLit(r) => ExprV::RecordLit(
            Seq::new(
                r.fields@.len(),
                |i: int|
                    if 0 <= i < r.fields@.len() {
                        FieldInitV {
                            name: r.fields@[i].name@,
                            value: expr_view(r.fields@[i].value),
                        }
                    } else {
                        arbitrary()
                    },
            ),
        ),
        Expr::Unary(u) => ExprV::Unary { op: u.op, expr: Box::new(expr_view(*u.expr)) },
        Expr::Binary(b) => ExprV::Binary {
            left: Box::new(expr_view(*b.left)),
            op: b.op,
            right: Box::new(expr_view(*b.right)),
        },
    }
}

pub open spec fn block_view(b: Block) -> BlockV
    decreases b,
{
    BlockV {
        stmts: Seq::new(
            b.stmts@.len(),
            |i: int|
                if 0 <= i < b.stmts@.len() {
                    stmt_view(b.stmts@[i])
                } else {
                    arbitrary()
                },
        ),
        tail: match b.tail {
            Some(e) => Some(Box::new(expr_view(*e))),
            None => None,
        },
    }
}

pub open spec fn stmt_view(s: Stmt) -> StmtV
    decreases s,
{
    match s {
        Stmt::Binding(b) => StmtV::Binding(binding_view(b)),
        Stmt::Assign(a) => StmtV::Assign { target: a.target@, value: expr_view(a.value) },
        Stmt::Expr(e) => StmtV::Expr(expr_view(e)),
    }
}

pub open spec fn binding_view(b: Binding) -> BindingV
    decreases b,
{
    BindingV { mutable: b.mutable, name: b.name@, ty: b.ty@, value: expr_view(b.value) }
}

/// The models of a list of expressions.
pub open spec fn exprs_view(es: Seq<Expr>) -> Seq<ExprV> {
    Seq::new(es.len(), |i: int| expr_view(es[i]))
}

/// The models of the fields of a record literal.
pub open spec fn field_inits_view(fs: Seq<FieldInit>) -> Seq<FieldInitV> {
    Seq::new(fs.len(), |i: int| FieldInitV { name: fs[i].name@, value: expr_view(fs[i].value) })
}

/// The models of a list of statements.
pub open spec fn stmts_view(ss: Seq<Stmt>) -> Seq<StmtV> {
    Seq::new(ss.len(), |i: int| stmt_view(ss[i]))
}

impl View for Expr {
    type V = ExprV;

    open spec fn view(&self) -> ExprV {
        expr_view(*self)
    }
}

impl View for FieldInit {
    type V = FieldInitV;

    open spec fn view(&self) -> FieldInitV {
        FieldInitV { name: self.name@, value: self.value@ }
    }
}

impl View for Block {
    type V = BlockV;

    open spec fn view(&self) -> BlockV {
        block_view(*self)
    }
}

impl View for Stmt {
    type V = StmtV;

    open spec fn view(&self) -> StmtV {
        stmt_view(*self)
    }
}

impl View for Binding {
    type V = BindingV;

    open spec fn view(&self) -> BindingV {
        binding_view(*self)
    }
}

impl View for FuncDecl {
    type V = FuncDeclV;

    open spec fn view(&self) -> FuncDeclV {
        FuncDeclV {
            name: self.name@,
            params: params_view(self.params@),
            ret: opt_type_view(self.ret),
            body: self.body@,
        }
    }
}

impl View for Decl {
    type V = DeclV;

    open spec fn view(&self) -> DeclV {
        match self {
            Decl::Import(i) => DeclV::Import(i.module@),
            Decl::Global(b) => DeclV::Global(b@),
            Decl::Let(b) => DeclV::Let(b@),
            Decl::Type(t) => DeclV::Type { name: t.name@, ty: t.ty@ },
            Decl::Func(f) => DeclV::Func(f@),
        }
    }
}

impl View for Program {
    type V = Seq<DeclV>;

    open spec fn view(&self) -> Seq<DeclV> {
        Seq::new(self.decls@.len(), |i: int| self.decls@[i]@)
    }
}

// ---------------------------------------------------------------------------
// Copies
// ---------------------------------------------------------------------------
impl Clone for Ident {
    fn clone(&self) -> (r: Self)
        ensures
            r@ == self@,
    {
        Ident(self.0.clone())
    }
}

impl Clone for Path {
    fn clone(&self) -> (r: Self)
        ensures
            r@ == self@,
    {
        let mut out: Vec<Ident> = Vec::new();
        let mut i: usize = 0;
        while i < self.0.len()
            invariant
                i <= self.0.len(),
                out@.len() == i,
                forall|j: int| 0 <= j < i ==> out@[j]@ == self.0@[j]@,
            decreases self.0.len() - i,
        {
            out.push(self.0[i].clone());
            i += 1;
        }
        let r = Path(out);
        assert(r@ =~= self@);
        r
    }
}

#[verifier::loop_isolation(false)]
pub fn clone_type(t: &Type) -> (r: Type)
    ensures
        r@ == t@,
    decreases t,
{
    match t {
        Type::Named(id) => Type::Named(id.clone()),
        Type::Ref(inner) => Type::Ref(Box::new(clone_type(inner))),
        Type::Record(fields) => {
            let mut out: Vec<FieldType> = Vec::new();
            let mut i: usize = 0;
            while i < fields.len()
                invariant
                    i <= fields.len(),
                    out@.len() == i,
                    forall|j: int| 0 <= j < i ==> out@[j]@ == fields@[j]@,
                decreases fields.len() - i,
            {
                let f = &fields[i];
                out.push(FieldType { name: f.name.clone(), ty: clone_type(&f.ty) });
                i += 1;
            }
            let r = Type::Record(out);
            assert(r@->Record_0 =~= t@->Record_0);
            r
        },
    }
}

impl Clone for Type {
    fn clone(&self) -> (r: Self)
        ensures
            r@ == self@,
    {
        clone_type(self)
    }
}

impl Clone for FieldType {
    fn clone(&self) -> (r: Self)
        ensures
            r@ == self@,
    {
        FieldType { name: self.name.clone(), ty: self.ty.clone() }
    }
}

impl Clone for Param {
    fn clone(&self) -> (r: Self)
        ensures
            r@ == self@,
    {
        Param { mutable: self.mutable, name: self.name.clone(), ty: self.ty.clone() }
    }
}

/// Copies a list of parameters.
pub fn clone_params(ps: &Vec<Param>) -> (r: Vec<Param>)
    ensures
        params_view(r@) == params_view(ps@),
{
    let mut out: Vec<Param> = Vec::new();
    let mut i: usize = 0;
    while i < ps.len()
        invariant
            i <= ps.len(),
            out@.len() == i,
            forall|j: int| 0 <= j < i ==> out@[j]@ == ps@[j]@,
        decreases ps.len() - i,
    {
        out.push(ps[i].clone());
        i += 1;
    }
    assert(params_view(out@) =~= params_view(ps@));
    out
}

/// Copies an optional type.
pub fn clone_opt_type(t: &Option<Type>) -> (r: Option<Type>)
    ensures
        opt_type_view(r) == opt_type_view(*t),
{
    match t {
        Some(t) => Some(t.clone()),
        None => None,
    }
}

impl Clone for Literal {
    fn clone(&self) -> (r: Self)
        ensures
            r@ == self@,
    {
        match self {
            Literal::Int(i) => Literal::Int(*i),
            Literal::Bool(b) => Literal::Bool(*b),
            Literal::Str(s) => Literal::Str(s.clone()),
            Literal::Unit => Literal::Unit,
        }
    }
}

#[verifier::loop_isolation(false)]
pub fn clone_expr(e: &Expr) -> (r: Expr)
    ensures
        r@ == e@,
    decreases e,
{
    match e {
        Expr::Literal(l) => Expr::Literal(l.clone()),
        Expr::Path(p) => Expr::Path(p.clone()),
        Expr::Copy(inner) => Expr::Copy(Box::new(clone_expr(inner))),
        Expr::Ref(inner) => Expr::Ref(Box::new(clone_expr(inner))),
        Expr::FuncCall(fc) => {
            let mut args: Vec<Expr> = Vec::new();
            let mut i: usize = 0;
            while i < fc.args.len()
                invariant
                    i <= fc.args.len(),
                    args@.len() == i,
                    forall|j: int| 0 <= j < i ==> args@[j]@ == fc.args@[j]@,
                decreases fc.args.len() - i,
            {
                args.push(clone_expr(&fc.args[i]));
                i += 1;
            }
            let r = Expr::FuncCall(FuncCall { callee: fc.callee.clone(), args });
            assert(r@->FuncCall_args =~= e@->FuncCall_args);
            r
        },
        Expr::If(ife) => Expr::If(
            Box::new(
                IfExpr {
                    cond: clone_expr(&ife.cond),
                    then_branch: clone_expr(&ife.then_branch),
                    else_branch: clone_expr(&ife.else_branch),
                },
            ),
        ),
        Expr::Block(b) => Expr::Block(clone_block(b)),
        Expr::RecordLit(rl) => {
            let mut fields: Vec<FieldInit> = Vec::new();
            let mut i: usize = 0;
            while i < rl.fields.len()
                invariant
                    i <= rl.fields.len(),
                    fields@.len() == i,
                    forall|j: int| 0 <= j < i ==> fields@[j]@ == rl.fields@[j]@,
                decreases rl.fields.len() - i,
            {
                let f = &rl.fields[i];
                fields.push(FieldInit { name: f.name.clone(), value: clone_expr(&f.value) });
                i += 1;
            }
            let r = Expr::RecordLit(RecordLit { fields });
            assert(r@->RecordLit_0 =~= e@->RecordLit_0);
            r
        },
        Expr::Unary(u) => Expr::Unary(UnaryExpr { op: u.op, expr: Box::new(clone_expr(&u.expr)) }),
        Expr::Binary(b) => Expr::Binary(
            BinaryExpr {
                left: Box::new(clone_expr(&b.left)),
                op: b.op,
                right: Box::new(clone_expr(&b.right)),
            },
        ),
    }
}

#[verifier::loop_isolation(false)]
pub fn clone_block(b: &Block) -> (r: Block)
    ensures
        r@ == b@,
    decreases b,
{
    let mut stmts: Vec<Stmt> = Vec::new();
    let mut i: usize = 0;
    while i < b.stmts.len()
        invariant
            i <= b.stmts.len(),
            stmts@.len() == i,
            forall|j: int| 0 <= j < i ==> stmts@[j]@ == b.stmts@[j]@,
        decreases b.stmts.len() - i,
    {
        stmts.push(clone_stmt(&b.stmts[i]));
        i += 1;
    }
    let tail = match &b.tail {
        Some(e) => Some(Box::new(clone_expr(e))),
        None => None,
    };
    let r = Block { stmts, tail };
    assert(r@.stmts =~= b@.stmts);
    r
}

pub fn clone_stmt(s: &Stmt) -> (r: Stmt)
    ensures
        r@ == s@,
    decreases s,
{
    match s {
        Stmt::Binding(b) => Stmt::Binding(clone_binding(b)),
        Stmt::Assign(a) => Stmt::Assign(
            Assign { target: a.target.clone(), value: clone_expr(&a.value) },
        ),
        Stmt::Expr(e) => Stmt::Expr(clone_expr(e)),
    }
}

pub fn clone_binding(b: &Binding) -> (r: Binding)
    ensures
        r@ == b@,
    decreases b,
{
    Binding {
        mutable: b.mutable,
        name: b.name.clone(),
        ty: b.ty.clone(),
        value: clone_expr(&b.value),
    }
}

impl Clone for Expr {
    fn clone(&self) -> (r: Self)
        ensures
            r@ == self@,
    {
        clone_expr(self)
    }
}

impl Clone for Block {
    fn clone(&self) -> (r: Self)
        ensures
            r@ == self@,
    {
        clone_block(self)
    }
}

impl Clone for Stmt {
    fn clone(&self) -> (r: Self)
        ensures
            r@ == self@,
    {
        clone_stmt(self)
    }
}

impl Clone for Binding {
    fn clone(&self) -> (r: Self)
        ensures
            r@ == self@,
    {
        clone_binding(self)
    }
}

impl Clone for FuncDecl {
    fn clone(&self) -> (r: Self)
        ensures
            r@ == self@,
    {
        FuncDecl {
            name: self.name.clone(),
            params: clone_params(&self.params),
            ret: clone_opt_type(&self.ret),
            body: self.body.clone(),
        }
    }
}

impl Clone for Decl {
    fn clone(&self) -> (r: Self)
        ensures
            r@ == self@,
    {
        match self {
            Decl::Import(i) => Decl::Import(ImportDecl { module: i.module.clone() }),
            Decl::Global(b) => Decl::Global(b.clone()),
            Decl::Let(b) => Decl::Let(b.clone()),
            Decl::Type(t) => Decl::Type(TypeDecl { name: t.name.clone(), ty: t.ty.clone() }),
            Decl::Func(f) => Decl::Func(f.clone()),
        }
    }
}

impl Clone for Program {
    fn clone(&self) -> (r: Self)
        ensures
            r@ == self@,
    {
        let mut decls: Vec<Decl> = Vec::new();
        let mut i: usize = 0;
        while i < self.decls.len()
            invariant
                i <= self.decls.len(),
                decls@.len() == i,
                forall|j: int| 0 <= j < i ==> decls@[j]@ == self.decls@[j]@,
            decreases self.decls.len() - i,
        {
            decls.push(self.decls[i].clone());
            i += 1;
        }
        let r = Program { decls };
        assert(r@ =~= self@);
        r
    }
}

// ---------------------------------------------------------------------------
// Structural questions about types
// ---------------------------------------------------------------------------
/// Whether two types have the same model.
#[verifier::loop_isolation(false)]
pub fn same_type(a: &Type, b: &Type) -> (r: bool)
    ensures
        r == (a@ == b@),
    decreases a,
{
    match (a, b) {
        (Type::Named(x), Type::Named(y)) => x.0 == y.0,
        (Type::Ref(x), Type::Ref(y)) => same_type(x, y),
        (Type::Record(af), Type::Record(bf)) => {
            if af.len() != bf.len() {
                assert(a@->Record_0.len() != b@->Record_0.len());
                return false;
            }
            let mut i: usize = 0;
            while i < af.len()
                invariant
                    i <= af.len(),
                    af.len() == bf.len(),
                    forall|j: int| 0 <= j < i ==> af@[j]@ == bf@[j]@,
                decreases af.len() - i,
            {
                if !(af[i].name.0 == bf[i].name.0) || !same_type(&af[i].ty, &bf[i].ty) {
                    assert(a@->Record_0[i as int] != b@->Record_0[i as int]);
                    return false;
                }
                i += 1;
            }
            assert(a@->Record_0 =~= b@->Record_0);
            true
        },
        _ => false,
    }
}

/// Whether a type mentions a reference anywhere, also inside a record.
#[verifier::loop_isolation(false)]
pub fn type_contains_ref(ty: &Type) -> (r: bool)
    ensures
        r == contains_ref(ty@),
    decreases ty,
{
    match ty {
        Type::Named(_) => false,
        Type::Ref(_) => true,
        Type::Record(fields) => {
            let mut i: usize = 0;
            while i < fields.len()
                invariant
                    i <= fields.len(),
                    forall|j: int| 0 <= j < i ==> !contains_ref(#[trigger] ty@->Record_0[j].ty),
                decreases fields.len() - i,
            {
                if type_contains_ref(&fields[i].ty) {
                    assert(contains_ref(ty@->Record_0[i as int].ty));
                    return true;
                }
                i += 1;
            }
            false
        },
    }
}

} // verus!

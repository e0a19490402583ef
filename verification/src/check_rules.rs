//! The ownership and escape rules of the static checker, as mathematics.
//!
//! A checker state is a value of [`CheckerV`]; every rule is a function from a
//! state and a piece of syntax to the next state and a result. The executable
//! checker in [`crate::typecheck`] is proved to compute exactly these
//! functions.

use crate::ast::{
    contains_ref, named, BinaryOp, BindingV, BlockV, DeclV, ExprV, FieldInitV, FieldV, FuncDeclV,
    LiteralV, Name, ParamV, PathV, StmtV, TypeV, UnaryOp,
};
use crate::scopes::find_scope;
use vstd::prelude::*;

verus! {

// ---------------------------------------------------------------------------
// State
// ---------------------------------------------------------------------------
/// How an expression reads the bindings it names.
#[derive(Debug, Clone, Copy, PartialEq, Eq)]
pub enum ValueMode {
    Move,
    Copy,
    Borrow,
}

/// Model of a checker error.
pub enum TypeErrorV {
    UnknownIdent(Seq<char>),
    UnknownType(Seq<char>),
    UnknownFunc(Seq<char>),
    UnknownFuncReturn(Seq<char>),
    TypeMismatch { expected: TypeV, found: TypeV },
    ArityMismatch { expected: nat, found: nat },
    Moved(Seq<char>),
    NotMutable(Seq<char>),
    Escape,
    MainHasParams,
}

/// What the checker knows of one binding.
pub struct SlotV {
    pub ty: TypeV,
    pub mutable: bool,
    pub moved: bool,
    pub origin_depth: nat,
}

/// One scope: the bindings declared in one block.
pub type ScopeV = Map<Name, SlotV>;

/// A function signature; `ret` is `None` until it is declared or inferred.
pub struct SigV {
    pub params: Seq<ParamV>,
    pub ret: Option<TypeV>,
}

/// The type of a checked expression, where its value was produced, and
/// whether the value may outlive the scope that produced it.
pub struct TyInfoV {
    pub ty: TypeV,
    pub origin_depth: nat,
    pub escapable: bool,
}

/// The whole state of the checker.
pub struct CheckerV {
    pub types: Map<Name, TypeV>,
    pub builtins: Set<Name>,
    pub funcs: Map<Name, SigV>,
    pub scopes: Seq<ScopeV>,
}

pub type Checked<T> = (CheckerV, Result<T, TypeErrorV>);

/// The index of the innermost scope (0 when there is none).
pub open spec fn depth_of(st: CheckerV) -> nat {
    if st.scopes.len() == 0 {
        0
    } else {
        (st.scopes.len() - 1) as nat
    }
}

pub open spec fn push_scope(st: CheckerV) -> CheckerV {
    CheckerV { scopes: st.scopes.push(Map::empty()), ..st }
}

pub open spec fn pop_scope(st: CheckerV) -> CheckerV {
    if st.scopes.len() == 0 {
        st
    } else {
        CheckerV { scopes: st.scopes.drop_last(), ..st }
    }
}

/// Declares `name` in the innermost scope, replacing an earlier declaration
/// of the same name in that scope.
pub open spec fn insert_var(st: CheckerV, name: Name, slot: SlotV) -> CheckerV {
    if st.scopes.len() == 0 {
        st
    } else {
        CheckerV {
            scopes: st.scopes.update(st.scopes.len() - 1, st.scopes.last().insert(name, slot)),
            ..st
        }
    }
}

/// The segments of a path joined by dots.
pub open spec fn path_text(p: PathV) -> Seq<char>
    decreases p.len(),
{
    if p.len() == 0 {
        Seq::empty()
    } else if p.len() == 1 {
        p[0]
    } else {
        path_text(p.drop_last()) + seq!['.'] + p.last()
    }
}

// ---------------------------------------------------------------------------
// Types
// ---------------------------------------------------------------------------
/// Expands aliases in `ty`. `unseen` holds the alias names that may still be
/// expanded on the way down: an alias that leads back to itself is reported
/// as an unknown type instead of being followed forever.
pub open spec fn resolve(st: CheckerV, ty: TypeV, unseen: Set<Name>) -> Result<TypeV, TypeErrorV>
    decreases unseen.len(), ty, 0nat,
    when unseen.finite()
{
    match ty {
        TypeV::Named(id) => {
            if !st.types.contains_key(id) {
                Err(TypeErrorV::UnknownType(id))
            } else if st.builtins.contains(id) {
                Ok(st.types[id])
            } else if !unseen.contains(id) {
                Err(TypeErrorV::UnknownType(id))
            } else {
                resolve(st, st.types[id], unseen.remove(id))
            }
        },
        TypeV::Ref(inner) => match resolve(st, *inner, unseen) {
            Ok(t) => Ok(TypeV::Ref(Box::new(t))),
            Err(e) => Err(e),
        },
        TypeV::Record(fields) => match resolve_fields(st, fields, 0, Seq::empty(), unseen) {
            Ok(fs) => Ok(TypeV::Record(fs)),
            Err(e) => Err(e),
        },
    }
}

/// Expands aliases in the fields of a record from index `i` on, first field
/// first; `acc` holds the fields done so far.
pub open spec fn resolve_fields(
    st: CheckerV,
    fields: Seq<FieldV>,
    i: int,
    acc: Seq<FieldV>,
    unseen: Set<Name>,
) -> Result<Seq<FieldV>, TypeErrorV>
    decreases unseen.len(), fields, fields.len() - i,
    when unseen.finite()
{
    if i < 0 || i >= fields.len() {
        Ok(acc)
    } else {
        match resolve(st, fields[i].ty, unseen) {
            Err(e) => Err(e),
            Ok(t) => resolve_fields(
                st,
                fields,
                i + 1,
                acc.push(FieldV { name: fields[i].name, ty: t }),
                unseen,
            ),
        }
    }
}

/// The structural form of `ty`: builtin names, references and records only.
pub open spec fn resolve_type(st: CheckerV, ty: TypeV) -> Result<TypeV, TypeErrorV> {
    resolve(st, ty, st.types.dom())
}

/// Two types are equal when their structural forms are.
pub open spec fn types_equal(st: CheckerV, a: TypeV, b: TypeV) -> Result<bool, TypeErrorV> {
    match resolve_type(st, a) {
        Err(e) => Err(e),
        Ok(ra) => match resolve_type(st, b) {
            Err(e) => Err(e),
            Ok(rb) => Ok(ra == rb),
        },
    }
}

pub open spec fn ensure_type(st: CheckerV, expected: TypeV, found: TypeV) -> Result<
    (),
    TypeErrorV,
> {
    match types_equal(st, expected, found) {
        Err(e) => Err(e),
        Ok(true) => Ok(()),
        Ok(false) => Err(TypeErrorV::TypeMismatch { expected, found }),
    }
}

/// The escape rule for a value that leaves the scope that produced it: it
/// must be escapable, and its structural type must hold no reference.
pub open spec fn may_leave(st: CheckerV, info: TyInfoV) -> Result<(), TypeErrorV> {
    if !info.escapable {
        Err(TypeErrorV::Escape)
    } else {
        match resolve_type(st, info.ty) {
            Err(e) => Err(e),
            Ok(r) => if contains_ref(r) {
                Err(TypeErrorV::Escape)
            } else {
                Ok(())
            },
        }
    }
}

/// The escape rule, applied when a value is bound or returned into depth
/// `target`: a value produced no deeper than `target` always passes.
pub open spec fn ensure_not_escape(st: CheckerV, info: TyInfoV, target: nat) -> Result<
    (),
    TypeErrorV,
> {
    if info.origin_depth > target {
        may_leave(st, info)
    } else {
        Ok(())
    }
}

pub open spec fn literal_type(l: LiteralV) -> TypeV {
    match l {
        LiteralV::Int(_) => named("i32"),
        LiteralV::Bool(_) => named("bool"),
        LiteralV::Str(_) => named("Str"),
        LiteralV::Unit => named("Unit"),
    }
}

// ---------------------------------------------------------------------------
// Bindings
// ---------------------------------------------------------------------------
/// Removes the references around a type.
pub open spec fn strip_refs(ty: TypeV) -> TypeV
    decreases ty,
{
    match ty {
        TypeV::Ref(inner) => strip_refs(*inner),
        _ => ty,
    }
}

/// The type of the first field called `name`.
pub open spec fn find_field(fields: Seq<FieldV>, name: Name) -> Option<TypeV>
    decreases fields.len(),
{
    if fields.len() == 0 {
        None
    } else if fields[0].name == name {
        Some(fields[0].ty)
    } else {
        find_field(fields.drop_first(), name)
    }
}

/// Follows field names from `ty`, looking through references at each step.
pub open spec fn walk_fields(ty: TypeV, rest: Seq<Name>) -> Result<TypeV, TypeErrorV>
    decreases rest.len(),
{
    if rest.len() == 0 {
        Ok(ty)
    } else {
        match strip_refs(ty) {
            TypeV::Record(fields) => match find_field(fields, rest[0]) {
                Some(t) => walk_fields(t, rest.drop_first()),
                None => Err(TypeErrorV::UnknownIdent(rest[0])),
            },
            _ => Err(TypeErrorV::UnknownIdent(rest[0])),
        }
    }
}

/// Finds the binding that a path starts at and the type that the path ends
/// at. The result is the depth of the scope that holds the binding, and the
/// binding's record with the type replaced by the type at the end of the path.
pub open spec fn lookup(st: CheckerV, path: PathV) -> Result<(nat, SlotV), TypeErrorV> {
    if path.len() == 0 {
        Err(TypeErrorV::UnknownIdent(Seq::empty()))
    } else {
        match find_scope(st.scopes, path[0]) {
            None => Err(TypeErrorV::UnknownIdent(path[0])),
            Some(d) => {
                let slot = st.scopes[d][path[0]];
                match walk_fields(slot.ty, path.drop_first()) {
                    Err(e) => Err(e),
                    Ok(ty) => Ok((d as nat, SlotV { ty, ..slot })),
                }
            },
        }
    }
}

/// Sets the moved flag of the innermost binding called `name`.
pub open spec fn set_moved(st: CheckerV, name: Name, moved: bool) -> CheckerV {
    match find_scope(st.scopes, name) {
        None => st,
        Some(d) => CheckerV {
            scopes: st.scopes.update(
                d,
                st.scopes[d].insert(name, SlotV { moved, ..st.scopes[d][name] }),
            ),
            ..st
        },
    }
}

/// Reads a path. The path is looked up first: an unknown name or field is
/// reported before anything else. A path that was found fails in every mode
/// where its binding is moved; only `Move` marks the binding moved. What is
/// read is never escapable: it belongs to the scope of its binding.
pub open spec fn read_path(st: CheckerV, path: PathV, mode: ValueMode) -> Checked<TyInfoV> {
    match lookup(st, path) {
        Err(e) => (st, Err(e)),
        Ok((_, slot)) => {
            if slot.moved {
                (st, Err(TypeErrorV::Moved(path_text(path))))
            } else {
                let info = TyInfoV {
                    ty: slot.ty,
                    origin_depth: slot.origin_depth,
                    escapable: false,
                };
                match mode {
                    ValueMode::Move => (set_moved(st, path[0], true), Ok(info)),
                    _ => (st, Ok(info)),
                }
            }
        },
    }
}

// ---------------------------------------------------------------------------
// Expressions and statements
// ---------------------------------------------------------------------------
pub open spec fn max_depth(a: nat, b: nat) -> nat {
    if a >= b {
        a
    } else {
        b
    }
}

/// The result type of a binary operator on operands of types `l` and `r`.
pub open spec fn binary_type(st: CheckerV, op: BinaryOp, l: TypeV, r: TypeV) -> Result<
    TypeV,
    TypeErrorV,
> {
    match op {
        BinaryOp::Add | BinaryOp::Sub | BinaryOp::Mul | BinaryOp::Div => {
            match types_equal(st, l, named("i32")) {
                Err(e) => Err(e),
                Ok(l_int) => match (if l_int {
                    types_equal(st, r, named("i32"))
                } else {
                    Ok(false)
                }) {
                    Err(e) => Err(e),
                    Ok(true) => Ok(named("i32")),
                    Ok(false) => match types_equal(st, l, named("Str")) {
                        Err(e) => Err(e),
                        Ok(l_str) => match (if l_str {
                            types_equal(st, r, named("Str"))
                        } else {
                            Ok(false)
                        }) {
                            Err(e) => Err(e),
                            Ok(true) => Ok(named("Str")),
                            Ok(false) => Err(TypeErrorV::TypeMismatch { expected: l, found: r }),
                        },
                    },
                },
            }
        },
        BinaryOp::Lt | BinaryOp::Eq => match ensure_type(st, l, r) {
            Err(e) => Err(e),
            Ok(()) => Ok(named("bool")),
        },
        BinaryOp::And | BinaryOp::Or => match ensure_type(st, named("bool"), l) {
            Err(e) => Err(e),
            Ok(()) => match ensure_type(st, named("bool"), r) {
                Err(e) => Err(e),
                Ok(()) => Ok(named("bool")),
            },
        },
    }
}

pub open spec fn check_expr(st: CheckerV, e: ExprV, mode: ValueMode) -> Checked<TyInfoV>
    decreases e, 0nat,
{
    match e {
        ExprV::Literal(l) => (
            st,
            Ok(TyInfoV { ty: literal_type(l), origin_depth: depth_of(st), escapable: true }),
        ),
        ExprV::Path(p) => read_path(st, p, mode),
        ExprV::Copy(inner) => check_expr(st, *inner, ValueMode::Copy),
        ExprV::Ref(inner) => {
            let (s1, r) = check_expr(st, *inner, ValueMode::Borrow);
            match r {
                Err(e) => (s1, Err(e)),
                Ok(info) => (s1, Ok(TyInfoV { ty: TypeV::Ref(Box::new(info.ty)), ..info })),
            }
        },
        ExprV::FuncCall { callee, args } => check_call(st, callee, args),
        ExprV::If { cond, then_branch, else_branch } => {
            let (s1, rc) = check_expr(st, *cond, ValueMode::Move);
            match rc {
                Err(e) => (s1, Err(e)),
                Ok(c) => match ensure_type(s1, named("bool"), c.ty) {
                    Err(e) => (s1, Err(e)),
                    Ok(()) => {
                        let (s2, rt) = check_expr(s1, *then_branch, ValueMode::Move);
                        match rt {
                            Err(e) => (s2, Err(e)),
                            Ok(t) => {
                                let (s3, re) = check_expr(s2, *else_branch, ValueMode::Move);
                                match re {
                                    Err(e) => (s3, Err(e)),
                                    Ok(el) => match ensure_type(s3, t.ty, el.ty) {
                                        Err(e) => (s3, Err(e)),
                                        Ok(()) => (
                                            s3,
                                            Ok(
                                                TyInfoV {
                                                    ty: t.ty,
                                                    origin_depth: max_depth(
                                                        t.origin_depth,
                                                        el.origin_depth,
                                                    ),
                                                    escapable: t.escapable && el.escapable,
                                                },
                                            ),
                                        ),
                                    },
                                }
                            },
                        }
                    },
                },
            }
        },
        ExprV::Block(b) => check_block(st, b, false),
        ExprV::RecordLit(fields) => check_record(
            st,
            fields,
            0,
            Seq::empty(),
            depth_of(st),
            true,
        ),
        ExprV::Unary { op, expr } => {
            let (s1, r) = check_expr(st, *expr, ValueMode::Move);
            match r {
                Err(e) => (s1, Err(e)),
                Ok(v) => {
                    let want = match op {
                        UnaryOp::Neg => named("i32"),
                        UnaryOp::Not => named("bool"),
                    };
                    match ensure_type(s1, want, v.ty) {
                        Err(e) => (s1, Err(e)),
                        Ok(()) => (s1, Ok(v)),
                    }
                },
            }
        },
        ExprV::Binary { left, op, right } => {
            let (s1, rl) = check_expr(st, *left, ValueMode::Move);
            match rl {
                Err(e) => (s1, Err(e)),
                Ok(l) => {
                    let (s2, rr) = check_expr(s1, *right, ValueMode::Move);
                    match rr {
                        Err(e) => (s2, Err(e)),
                        Ok(r) => match binary_type(s2, op, l.ty, r.ty) {
                            Err(e) => (s2, Err(e)),
                            Ok(ty) => (
                                s2,
                                Ok(
                                    TyInfoV {
                                        ty,
                                        origin_depth: max_depth(l.origin_depth, r.origin_depth),
                                        escapable: l.escapable && r.escapable,
                                    },
                                ),
                            ),
                        },
                    }
                },
            }
        },
    }
}

/// A call names a known function by a single segment and gives it as many
/// arguments as it has parameters. Its value is fresh: it may leave its scope
/// unless the return type, as written, holds a reference. A call to a
/// function whose return type is not known yet fails after its arguments were
/// checked.
pub open spec fn check_call(st: CheckerV, callee: PathV, args: Seq<ExprV>) -> Checked<TyInfoV>
    decreases args, args.len() + 1,
{
    if callee.len() != 1 {
        (st, Err(TypeErrorV::UnknownFunc(path_text(callee))))
    } else if !st.funcs.contains_key(callee[0]) {
        (st, Err(TypeErrorV::UnknownFunc(callee[0])))
    } else {
        let sig = st.funcs[callee[0]];
        if sig.params.len() != args.len() {
            (
                st,
                Err(TypeErrorV::ArityMismatch { expected: sig.params.len(), found: args.len() }),
            )
        } else {
            let (s1, r) = check_args(st, args, sig.params, 0);
            match r {
                Err(e) => (s1, Err(e)),
                Ok(()) => match sig.ret {
                    None => (s1, Err(TypeErrorV::UnknownFuncReturn(callee[0]))),
                    Some(ret) => (
                        s1,
                        Ok(
                            TyInfoV {
                                ty: ret,
                                origin_depth: depth_of(s1),
                                escapable: !contains_ref(ret),
                            },
                        ),
                    ),
                },
            }
        }
    }
}

/// Checks the arguments of a call from index `i` on, each under `Move` and
/// against the structural form of its parameter's type.
pub open spec fn check_args(st: CheckerV, args: Seq<ExprV>, params: Seq<ParamV>, i: int) -> Checked<
    (),
>
    decreases args, args.len() - i,
{
    if i < 0 || i >= args.len() || i >= params.len() {
        (st, Ok(()))
    } else {
        let (s1, r) = check_expr(st, args[i], ValueMode::Move);
        match r {
            Err(e) => (s1, Err(e)),
            Ok(arg) => match resolve_type(s1, params[i].ty) {
                Err(e) => (s1, Err(e)),
                Ok(pty) => match ensure_type(s1, pty, arg.ty) {
                    Err(e) => (s1, Err(e)),
                    Ok(()) => check_args(s1, args, params, i + 1),
                },
            },
        }
    }
}

/// Checks the fields of a record literal from index `i` on. `acc` holds the
/// field types found so far, `depth` the deepest origin and `escapable`
/// whether every field so far was escapable.
pub open spec fn check_record(
    st: CheckerV,
    fields: Seq<FieldInitV>,
    i: int,
    acc: Seq<FieldV>,
    depth: nat,
    escapable: bool,
) -> Checked<TyInfoV>
    decreases fields, fields.len() - i,
{
    if i < 0 || i >= fields.len() {
        (st, Ok(TyInfoV { ty: TypeV::Record(acc), origin_depth: depth, escapable }))
    } else {
        let (s1, r) = check_expr(st, fields[i].value, ValueMode::Move);
        match r {
            Err(e) => (s1, Err(e)),
            Ok(v) => check_record(
                s1,
                fields,
                i + 1,
                acc.push(FieldV { name: fields[i].name, ty: v.ty }),
                max_depth(depth, v.origin_depth),
                escapable && v.escapable,
            ),
        }
    }
}

/// A block opens a scope, checks its statements and its tail, and closes the
/// scope again, whether or not the check succeeded.
pub open spec fn check_block(st: CheckerV, b: BlockV, allow_escape_values: bool) -> Checked<
    TyInfoV,
>
    decreases b, 1nat,
{
    let (s1, r) = block_body(push_scope(st), b, allow_escape_values);
    (pop_scope(s1), r)
}

/// The inside of a block, in the block's own scope.
///
/// The tail value may have been produced deeper than the block only at a
/// function body (`allow_escape_values`), and only under the escape rule. A
/// function body hands its value on as produced at the block's depth; any
/// other block hands it on as not escapable.
pub open spec fn block_body(st: CheckerV, b: BlockV, allow_escape_values: bool) -> Checked<
    TyInfoV,
>
    decreases b, 0nat,
{
    let depth = depth_of(st);
    let (s1, r) = check_stmts(st, b.stmts, 0);
    match r {
        Err(e) => (s1, Err(e)),
        Ok(()) => match b.tail {
            None => (s1, Ok(TyInfoV { ty: named("Unit"), origin_depth: depth, escapable: true })),
            Some(tail) => {
                let (s2, rt) = check_expr(s1, *tail, ValueMode::Move);
                match rt {
                    Err(e) => (s2, Err(e)),
                    Ok(info) => {
                        let leave = if info.origin_depth > depth {
                            if !allow_escape_values {
                                Err(TypeErrorV::Escape)
                            } else {
                                may_leave(s2, info)
                            }
                        } else {
                            Ok(())
                        };
                        match leave {
                            Err(e) => (s2, Err(e)),
                            Ok(()) => if allow_escape_values {
                                (
                                    s2,
                                    Ok(
                                        TyInfoV {
                                            ty: info.ty,
                                            origin_depth: depth,
                                            escapable: !contains_ref(info.ty),
                                        },
                                    ),
                                )
                            } else {
                                (s2, Ok(TyInfoV { escapable: false, ..info }))
                            },
                        }
                    },
                }
            },
        },
    }
}

pub open spec fn check_stmts(st: CheckerV, stmts: Seq<StmtV>, i: int) -> Checked<()>
    decreases stmts, stmts.len() - i,
{
    if i < 0 || i >= stmts.len() {
        (st, Ok(()))
    } else {
        let (s1, r) = check_stmt(st, stmts[i]);
        match r {
            Err(e) => (s1, Err(e)),
            Ok(()) => check_stmts(s1, stmts, i + 1),
        }
    }
}

pub open spec fn check_stmt(st: CheckerV, s: StmtV) -> Checked<()>
    decreases s, 0nat,
{
    match s {
        StmtV::Binding(b) => check_binding(st, b, depth_of(st)),
        StmtV::Assign { target, value } => check_assign(st, target, value),
        StmtV::Expr(e) => {
            let (s1, r) = check_expr(st, e, ValueMode::Move);
            match r {
                Err(e) => (s1, Err(e)),
                Ok(_) => (s1, Ok(())),
            }
        },
    }
}

/// An assignment needs a mutable target. The value is checked under `Move`,
/// must pass the escape rule against the depth of the target's scope and
/// have the target's type; the target is present afterwards.
pub open spec fn check_assign(st: CheckerV, target: PathV, value: ExprV) -> Checked<()>
    decreases value, 1nat,
{
    match lookup(st, target) {
        Err(e) => (st, Err(e)),
        Ok((binding_depth, slot)) => {
            if !slot.mutable {
                (st, Err(TypeErrorV::NotMutable(path_text(target))))
            } else {
                let (s1, r) = check_expr(st, value, ValueMode::Move);
                match r {
                    Err(e) => (s1, Err(e)),
                    Ok(v) => match ensure_not_escape(s1, v, binding_depth) {
                        Err(e) => (s1, Err(e)),
                        Ok(()) => match ensure_type(s1, slot.ty, v.ty) {
                            Err(e) => (s1, Err(e)),
                            Ok(()) => (set_moved(s1, target[0], false), Ok(())),
                        },
                    },
                }
            }
        },
    }
}

/// A binding checks its value under `Move`, applies the escape rule against
/// `depth`, compares the value's type with the declared one, and declares the
/// name, present, in the innermost scope.
pub open spec fn check_binding(st: CheckerV, b: BindingV, depth: nat) -> Checked<()>
    decreases b, 0nat,
{
    match resolve_type(st, b.ty) {
        Err(e) => (st, Err(e)),
        Ok(ty_ann) => {
            let (s1, r) = check_expr(st, b.value, ValueMode::Move);
            match r {
                Err(e) => (s1, Err(e)),
                Ok(v) => match ensure_not_escape(s1, v, depth) {
                    Err(e) => (s1, Err(e)),
                    Ok(()) => match ensure_type(s1, ty_ann, v.ty) {
                        Err(e) => (s1, Err(e)),
                        Ok(()) => (
                            insert_var(
                                s1,
                                b.name,
                                SlotV {
                                    ty: ty_ann,
                                    mutable: b.mutable,
                                    moved: false,
                                    origin_depth: depth,
                                },
                            ),
                            Ok(()),
                        ),
                    },
                },
            }
        },
    }
}

// ---------------------------------------------------------------------------
// Functions and programs
// ---------------------------------------------------------------------------
/// Declares the parameters from index `i` on in the innermost scope.
pub open spec fn bind_params(st: CheckerV, params: Seq<ParamV>, i: int, depth: nat) -> Checked<()>
    decreases params.len() - i,
{
    if i < 0 || i >= params.len() {
        (st, Ok(()))
    } else {
        match resolve_type(st, params[i].ty) {
            Err(e) => (st, Err(e)),
            Ok(ty) => bind_params(
                insert_var(
                    st,
                    params[i].name,
                    SlotV { ty, mutable: params[i].mutable, moved: false, origin_depth: depth },
                ),
                params,
                i + 1,
                depth,
            ),
        }
    }
}

/// Records the return type of `name`.
pub open spec fn set_return(st: CheckerV, name: Name, ret: TypeV) -> CheckerV {
    if st.funcs.contains_key(name) {
        CheckerV {
            funcs: st.funcs.insert(name, SigV { ret: Some(ret), ..st.funcs[name] }),
            ..st
        }
    } else {
        st
    }
}

/// The inside of a function, in the scope of its parameters.
pub open spec fn func_body(st: CheckerV, f: FuncDeclV, sig: SigV) -> Checked<()> {
    let depth = depth_of(st);
    let (s1, rp) = bind_params(st, sig.params, 0, depth);
    match rp {
        Err(e) => (s1, Err(e)),
        Ok(()) => {
            let (s2, rb) = match f.body {
                ExprV::Block(b) => check_block(s1, b, true),
                other => check_expr(s1, other, ValueMode::Move),
            };
            match rb {
                Err(e) => (s2, Err(e)),
                Ok(body) => match ensure_not_escape(s2, body, depth) {
                    Err(e) => (s2, Err(e)),
                    Ok(()) => match sig.ret {
                        Some(annotated) => match ensure_type(s2, annotated, body.ty) {
                            Err(e) => (s2, Err(e)),
                            Ok(()) => (set_return(s2, f.name, annotated), Ok(())),
                        },
                        None => (set_return(s2, f.name, body.ty), Ok(())),
                    },
                },
            }
        },
    }
}

/// Checks one function: `main` takes no parameters; the body is checked in a
/// scope of its own that holds the parameters; the value of the body must be
/// allowed to leave that scope and have the declared return type, if one is
/// declared. On success the return type is recorded for later calls.
pub open spec fn check_func(st: CheckerV, f: FuncDeclV) -> Checked<()> {
    if f.name == "main"@ && f.params.len() != 0 {
        (st, Err(TypeErrorV::MainHasParams))
    } else if !st.funcs.contains_key(f.name) {
        (st, Err(TypeErrorV::UnknownFunc(f.name)))
    } else {
        let (s1, r) = func_body(push_scope(st), f, st.funcs[f.name]);
        (pop_scope(s1), r)
    }
}

/// The first pass: every type alias and every function signature, from
/// declaration `i` on.
pub open spec fn collect(st: CheckerV, decls: Seq<DeclV>, i: int) -> CheckerV
    decreases decls.len() - i,
{
    if i < 0 || i >= decls.len() {
        st
    } else {
        let s1 = match decls[i] {
            DeclV::Type { name, ty } => CheckerV { types: st.types.insert(name, ty), ..st },
            DeclV::Func(f) => CheckerV {
                funcs: st.funcs.insert(f.name, SigV { params: f.params, ret: f.ret }),
                ..st
            },
            _ => st,
        };
        collect(s1, decls, i + 1)
    }
}

/// The top-level bindings from declaration `i` on, in order, at depth 0.
pub open spec fn check_globals(st: CheckerV, decls: Seq<DeclV>, i: int) -> Checked<()>
    decreases decls.len() - i,
{
    if i < 0 || i >= decls.len() {
        (st, Ok(()))
    } else {
        match decls[i] {
            DeclV::Global(b) | DeclV::Let(b) => {
                let (s1, r) = check_binding(st, b, 0);
                match r {
                    Err(e) => (s1, Err(e)),
                    Ok(()) => check_globals(s1, decls, i + 1),
                }
            },
            _ => check_globals(st, decls, i + 1),
        }
    }
}

/// The functions among the declarations from `i` on, in order.
pub open spec fn funcs_of(decls: Seq<DeclV>, i: int) -> Seq<FuncDeclV>
    decreases decls.len() - i,
{
    if i < 0 || i >= decls.len() {
        Seq::empty()
    } else {
        match decls[i] {
            DeclV::Func(f) => seq![f] + funcs_of(decls, i + 1),
            _ => funcs_of(decls, i + 1),
        }
    }
}

/// What one round over the pending functions leaves.
pub struct RoundV {
    pub deferred: Seq<FuncDeclV>,
    pub progressed: bool,
}

/// One round: each pending function from index `i` on is checked once. A
/// function whose check stops at a call with a return type that is not known
/// yet is deferred; any other error ends the round with that error.
pub open spec fn round(st: CheckerV, pending: Seq<FuncDeclV>, i: int, acc: RoundV) -> Checked<
    RoundV,
>
    decreases pending.len() - i,
{
    if i < 0 || i >= pending.len() {
        (st, Ok(acc))
    } else {
        let (s1, r) = check_func(st, pending[i]);
        match r {
            Ok(()) => round(s1, pending, i + 1, RoundV { progressed: true, ..acc }),
            Err(TypeErrorV::UnknownFuncReturn(_)) => round(
                s1,
                pending,
                i + 1,
                RoundV { deferred: acc.deferred.push(pending[i]), ..acc },
            ),
            Err(e) => (s1, Err(e)),
        }
    }
}

/// Rounds are repeated on what was deferred until nothing is pending. A
/// round in which no function succeeded ends the check: the return type of
/// the first deferred function cannot be inferred.
pub open spec fn worklist(st: CheckerV, pending: Seq<FuncDeclV>) -> Checked<()>
    decreases pending.len(),
    via worklist_decreases
{
    if pending.len() == 0 {
        (st, Ok(()))
    } else {
        let (s1, r) = round(st, pending, 0, RoundV { deferred: Seq::empty(), progressed: false });
        match r {
            Err(e) => (s1, Err(e)),
            Ok(out) => if !out.progressed {
                let unresolved = if out.deferred.len() > 0 {
                    out.deferred[0].name
                } else {
                    "<unknown>"@
                };
                (s1, Err(TypeErrorV::UnknownFuncReturn(unresolved)))
            } else {
                worklist(s1, out.deferred)
            },
        }
    }
}

#[via_fn]
proof fn worklist_decreases(st: CheckerV, pending: Seq<FuncDeclV>) {
    if pending.len() != 0 {
        lemma_round_progress(
            st,
            pending,
            0,
            RoundV { deferred: Seq::empty(), progressed: false },
        );
    }
}

/// A round defers at most what it looked at, and less when a function
/// succeeded in it.
pub proof fn lemma_round_progress(st: CheckerV, pending: Seq<FuncDeclV>, i: int, acc: RoundV)
    requires
        0 <= i <= pending.len(),
    ensures
        round(st, pending, i, acc).1 matches Ok(out) ==> {
            &&& out.deferred.len() <= acc.deferred.len() + pending.len() - i
            &&& (out.progressed && !acc.progressed) ==> out.deferred.len() < acc.deferred.len()
                + pending.len() - i
            &&& acc.progressed ==> out.progressed
        },
    decreases pending.len() - i,
{
    if i < pending.len() {
        let (s1, r) = check_func(st, pending[i]);
        match r {
            Ok(()) => lemma_round_progress(
                s1,
                pending,
                i + 1,
                RoundV { progressed: true, ..acc },
            ),
            Err(TypeErrorV::UnknownFuncReturn(_)) => lemma_round_progress(
                s1,
                pending,
                i + 1,
                RoundV { deferred: acc.deferred.push(pending[i]), ..acc },
            ),
            Err(_) => {},
        }
    }
}

/// The whole check: collect aliases and signatures, open the global scope,
/// check the top-level bindings in order, then the functions.
pub open spec fn check_program(st: CheckerV, decls: Seq<DeclV>) -> Checked<()> {
    let s1 = push_scope(collect(st, decls, 0));
    let (s2, r) = check_globals(s1, decls, 0);
    match r {
        Err(e) => (s2, Err(e)),
        Ok(()) => worklist(s2, funcs_of(decls, 0)),
    }
}

// ---------------------------------------------------------------------------
// The initial state
// ---------------------------------------------------------------------------
pub open spec fn param(name: &str, ty: &str) -> ParamV {
    ParamV { mutable: false, name: name@, ty: named(ty) }
}

pub open spec fn sig(params: Seq<ParamV>, ret: &str) -> SigV {
    SigV { params, ret: Some(named(ret)) }
}

/// The builtin type names and what each stands for.
pub open spec fn builtin_types() -> Map<Name, TypeV> {
    Map::<Name, TypeV>::empty().insert("i32"@, named("i32")).insert("i64"@, named("i64")).insert(
        "u8"@,
        named("u8"),
    ).insert("bool"@, named("bool")).insert("Str"@, named("Str")).insert(
        "Bytes"@,
        named("Bytes"),
    ).insert("Unit"@, named("Unit")).insert(
        "ReadFileResult"@,
        TypeV::Record(
            seq![
                FieldV { name: "ok"@, ty: named("bool") },
                FieldV { name: "data"@, ty: named("Str") },
            ],
        ),
    )
}

/// The builtin functions and their signatures.
pub open spec fn builtin_funcs() -> Map<Name, SigV> {
    Map::<Name, SigV>::empty().insert("print"@, sig(seq![param("msg", "Str")], "Str")).insert(
        "println"@,
        sig(seq![param("msg", "Str")], "Str"),
    ).insert("read_file"@, sig(seq![param("path", "Str")], "Str")).insert(
        "write_file"@,
        sig(seq![param("path", "Str"), param("data", "Str")], "Unit"),
    ).insert("args"@, sig(Seq::empty(), "Bytes")).insert(
        "bytes_to_str"@,
        sig(seq![param("buf", "Bytes")], "Str"),
    ).insert("try_read_file"@, sig(seq![param("path", "Str")], "ReadFileResult")).insert(
        "try_write_file"@,
        sig(seq![param("path", "Str"), param("data", "Str")], "bool"),
    ).insert("str_len"@, sig(seq![param("s", "Str")], "i32")).insert(
        "str_byte_at"@,
        sig(seq![param("s", "Str"), param("i", "i32")], "i32"),
    ).insert(
        "str_slice"@,
        sig(seq![param("s", "Str"), param("start", "i32"), param("len", "i32")], "Str"),
    )
}

/// The state of a new checker: the builtins and no scope.
pub open spec fn initial_checker() -> CheckerV {
    CheckerV {
        types: builtin_types(),
        builtins: builtin_types().dom(),
        funcs: builtin_funcs(),
        scopes: Seq::empty(),
    }
}

} // verus!

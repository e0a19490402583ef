//! What the C emitter writes, as mathematics.
//!
//! The emitter appends to a text. Every rule here is a function from the
//! text so far (and what else the emitter knows) to the text afterwards. The
//! executable emitter in [`crate::cgen`] is proved to compute exactly these
//! functions.

use crate::ast::{
    named, BinaryOp, BindingV, BlockV, DeclV, ExprV, FieldInitV, FieldV, FuncDeclV, LiteralV,
    Name, ParamV, PathV, StmtV, TypeV, UnaryOp,
};
use crate::check_rules::path_text;
use crate::scopes::find_scope;
use vstd::prelude::*;

verus! {

pub type Text = Seq<char>;

// ---------------------------------------------------------------------------
// Numbers
// ---------------------------------------------------------------------------
/// The character of a decimal digit.
pub open spec fn digit_char(d: nat) -> char
    recommends
        d < 10,
{
    (('0' as u32) + d as u32) as char
}

/// A natural number in decimal.
pub open spec fn nat_text(n: nat) -> Text
    decreases n,
{
    if n < 10 {
        seq![digit_char(n)]
    } else {
        nat_text(n / 10).push(digit_char(n % 10))
    }
}

/// An integer in decimal, with `-` before a negative one.
pub open spec fn int_text(i: int) -> Text {
    if i < 0 {
        seq!['-'] + nat_text((-i) as nat)
    } else {
        nat_text(i as nat)
    }
}

// ---------------------------------------------------------------------------
// What the emitter knows
// ---------------------------------------------------------------------------
/// The types and names that the emitter knows.
pub struct CtxV {
    /// What each type name stands for.
    pub types: Map<Name, TypeV>,
    /// The type names in the order in which they were declared, builtins
    /// first.
    pub names: Seq<Name>,
    /// The declared return type of each function, if it has one.
    pub funcs: Map<Name, Option<TypeV>>,
    /// The declared types of the bindings, innermost scope last.
    pub scopes: Seq<Map<Name, TypeV>>,
}

/// The numbers of the next temporary and the next scope.
pub struct CountersV {
    pub tmp: nat,
    pub scope: nat,
}

/// Model of an emitter error.
pub enum CgenErrorV {
    Parse(Seq<char>),
    Unsupported(Seq<char>),
    Fmt(Seq<char>),
    UnknownIdent(Seq<char>),
}

/// The text afterwards and the counters afterwards, or an error.
pub type Emitted = Result<(Text, CountersV), CgenErrorV>;

pub open spec fn push_scope(ctx: CtxV) -> CtxV {
    CtxV { scopes: ctx.scopes.push(Map::empty()), ..ctx }
}

pub open spec fn pop_scope(ctx: CtxV) -> CtxV {
    if ctx.scopes.len() == 0 {
        ctx
    } else {
        CtxV { scopes: ctx.scopes.drop_last(), ..ctx }
    }
}

pub open spec fn insert_var(ctx: CtxV, name: Name, ty: TypeV) -> CtxV {
    if ctx.scopes.len() == 0 {
        ctx
    } else {
        CtxV {
            scopes: ctx.scopes.update(ctx.scopes.len() - 1, ctx.scopes.last().insert(name, ty)),
            ..ctx
        }
    }
}

pub open spec fn is_builtin_name(name: Name) -> bool {
    name == "i32"@ || name == "i64"@ || name == "u8"@ || name == "bool"@ || name == "Str"@ || name
        == "Bytes"@ || name == "Unit"@
}

/// The builtin type names, each standing for itself.
pub open spec fn builtin_types() -> Map<Name, TypeV> {
    Map::<Name, TypeV>::empty().insert("i32"@, named("i32")).insert("i64"@, named("i64")).insert(
        "u8"@,
        named("u8"),
    ).insert("bool"@, named("bool")).insert("Str"@, named("Str")).insert(
        "Bytes"@,
        named("Bytes"),
    ).insert("Unit"@, named("Unit"))
}

pub open spec fn builtin_names() -> Seq<Name> {
    seq!["i32"@, "i64"@, "u8"@, "bool"@, "Str"@, "Bytes"@, "Unit"@]
}

/// The builtin functions that a program may leave to the runtime, with
/// their return types.
pub open spec fn or_insert(
    funcs: Map<Name, Option<TypeV>>,
    name: &str,
    ret: &str,
) -> Map<Name, Option<TypeV>> {
    if funcs.contains_key(name@) {
        funcs
    } else {
        funcs.insert(name@, Some(named(ret)))
    }
}

/// The types, the functions and the top-level bindings of the declarations
/// from `i` on, added to `ctx`.
pub open spec fn collect(ctx: CtxV, decls: Seq<DeclV>, i: int) -> CtxV
    decreases decls.len() - i,
{
    if i < 0 || i >= decls.len() {
        ctx
    } else {
        let next = match decls[i] {
            DeclV::Func(f) => CtxV { funcs: ctx.funcs.insert(f.name, f.ret), ..ctx },
            DeclV::Type { name, ty } => CtxV {
                types: ctx.types.insert(name, ty),
                names: ctx.names.push(name),
                ..ctx
            },
            DeclV::Global(b) | DeclV::Let(b) => insert_var(ctx, b.name, b.ty),
            DeclV::Import(_) => ctx,
        };
        collect(next, decls, i + 1)
    }
}

/// What the emitter knows of a program before it writes anything.
pub open spec fn program_ctx(decls: Seq<DeclV>) -> CtxV {
    let start = CtxV {
        types: builtin_types(),
        names: builtin_names(),
        funcs: Map::empty(),
        scopes: seq![Map::<Name, TypeV>::empty()],
    };
    let c = collect(start, decls, 0);
    CtxV {
        funcs: or_insert(
            or_insert(
                or_insert(
                    or_insert(or_insert(c.funcs, "print", "Str"), "println", "Str"),
                    "read_file",
                    "Str",
                ),
                "write_file",
                "Unit",
            ),
            "args",
            "Bytes",
        ),
        ..c
    }
}

// ---------------------------------------------------------------------------
// Types
// ---------------------------------------------------------------------------
/// Follows type names to what they stand for. A name is followed once: a
/// name that leads back to itself stays as it is, and so does an unknown
/// name. What a reference refers to is followed too; a record stays as it is.
///
/// `unseen` holds the known names that were not followed yet.
pub open spec fn resolve_alias(ctx: CtxV, ty: TypeV, unseen: Set<Name>) -> TypeV
    decreases unseen.len(), ty,
    when unseen.finite()
{
    match ty {
        TypeV::Named(id) => if !unseen.contains(id) {
            ty
        } else {
            resolve_alias(ctx, ctx.types[id], unseen.remove(id))
        },
        TypeV::Ref(inner) => TypeV::Ref(Box::new(resolve_alias(ctx, *inner, unseen))),
        TypeV::Record(_) => ty,
    }
}

/// What a type stands for.
pub open spec fn resolved(ctx: CtxV, ty: TypeV) -> TypeV {
    resolve_alias(ctx, ty, ctx.types.dom())
}

pub open spec fn is_named(ctx: CtxV, ty: TypeV, name: &str) -> bool {
    resolved(ctx, ty) == named(name)
}

/// Removes the references around a type.
pub open spec fn strip_refs(ty: TypeV) -> TypeV
    decreases ty,
{
    match ty {
        TypeV::Ref(inner) => strip_refs(*inner),
        _ => ty,
    }
}

/// The type of the first field called `name`.
pub open spec fn find_field(fields: Seq<FieldV>, name: Name) -> Option<TypeV>
    decreases fields.len(),
{
    if fields.len() == 0 {
        None
    } else if fields[0].name == name {
        Some(fields[0].ty)
    } else {
        find_field(fields.drop_first(), name)
    }
}

/// The type of a field of a value of type `ty`, through references.
pub open spec fn field_type(ctx: CtxV, ty: TypeV, field: Name) -> Option<TypeV> {
    match strip_refs(resolved(ctx, ty)) {
        TypeV::Record(fields) => find_field(fields, field),
        _ => None,
    }
}

/// The declared type of a name, innermost scope first.
pub open spec fn type_of_ident(ctx: CtxV, name: Name) -> Option<TypeV> {
    match find_scope(ctx.scopes, name) {
        Some(d) => Some(ctx.scopes[d][name]),
        None => None,
    }
}

/// The type at the end of the fields `rest[i..]` of a value of type `ty`.
pub open spec fn fields_type(ctx: CtxV, ty: TypeV, rest: Seq<Name>, i: int) -> Option<TypeV>
    decreases rest.len() - i,
{
    if i < 0 || i >= rest.len() {
        Some(ty)
    } else {
        match field_type(ctx, ty, rest[i]) {
            None => None,
            Some(t) => fields_type(ctx, t, rest, i + 1),
        }
    }
}

pub open spec fn type_of_path(ctx: CtxV, path: PathV) -> Option<TypeV> {
    if path.len() == 0 {
        None
    } else {
        match type_of_ident(ctx, path[0]) {
            None => None,
            Some(t) => fields_type(ctx, t, path, 1),
        }
    }
}

/// The bindings that the statements from `i` on declare, added to a scope.
pub open spec fn block_bindings(scope: Map<Name, TypeV>, stmts: Seq<StmtV>, i: int) -> Map<
    Name,
    TypeV,
>
    decreases stmts.len() - i,
{
    if i < 0 || i >= stmts.len() {
        scope
    } else {
        match stmts[i] {
            StmtV::Binding(b) => block_bindings(scope.insert(b.name, b.ty), stmts, i + 1),
            _ => block_bindings(scope, stmts, i + 1),
        }
    }
}

pub open spec fn or_unit(t: Option<TypeV>) -> TypeV {
    match t {
        Some(t) => t,
        None => named("Unit"),
    }
}

/// The type that the emitter takes an expression to have, from the
/// declared types alone.
pub open spec fn infer_expr_type(ctx: CtxV, e: ExprV) -> Option<TypeV>
    decreases e, 0nat,
{
    match e {
        ExprV::Literal(LiteralV::Int(_)) => Some(named("i32")),
        ExprV::Literal(LiteralV::Bool(_)) => Some(named("bool")),
        ExprV::Literal(LiteralV::Str(_)) => Some(named("Str")),
        ExprV::Literal(LiteralV::Unit) => Some(named("Unit")),
        ExprV::Path(p) => type_of_path(ctx, p),
        ExprV::Copy(inner) => infer_expr_type(ctx, *inner),
        ExprV::Ref(inner) => match infer_expr_type(ctx, *inner) {
            Some(t) => Some(TypeV::Ref(Box::new(t))),
            None => None,
        },
        ExprV::FuncCall { callee, args } => {
            let name = path_text(callee);
            if ctx.funcs.contains_key(name) {
                Some(or_unit(ctx.funcs[name]))
            } else {
                None
            }
        },
        ExprV::If { cond, then_branch, else_branch } => match infer_expr_type(ctx, *then_branch) {
            None => None,
            Some(t) => match infer_expr_type(ctx, *else_branch) {
                None => None,
                Some(e) => if t == e {
                    Some(t)
                } else {
                    Some(named("Unit"))
                },
            },
        },
        ExprV::Block(b) => Some(infer_block_type(ctx, b)),
        ExprV::RecordLit(fields) => Some(TypeV::Record(infer_fields(ctx, fields, 0, Seq::empty()))),
        ExprV::Unary { op, expr } => match op {
            UnaryOp::Neg => Some(named("i32")),
            UnaryOp::Not => Some(named("bool")),
        },
        ExprV::Binary { left, op, right } => match infer_expr_type(ctx, *left) {
            None => None,
            Some(lhs) => match infer_expr_type(ctx, *right) {
                None => None,
                Some(rhs) => match op {
                    BinaryOp::Lt | BinaryOp::Eq | BinaryOp::And | BinaryOp::Or => Some(
                        named("bool"),
                    ),
                    BinaryOp::Add => if is_named(ctx, lhs, "Str") || is_named(ctx, rhs, "Str") {
                        Some(named("Str"))
                    } else {
                        Some(lhs)
                    },
                    _ => Some(lhs),
                },
            },
        },
    }
}

/// The field types of a record literal from field `i` on, after `acc`.
pub open spec fn infer_fields(ctx: CtxV, fields: Seq<FieldInitV>, i: int, acc: Seq<FieldV>) -> Seq<
    FieldV,
>
    decreases fields, fields.len() - i,
{
    if i < 0 || i >= fields.len() {
        acc
    } else {
        infer_fields(
            ctx,
            fields,
            i + 1,
            acc.push(
                FieldV {
                    name: fields[i].name,
                    ty: or_unit(infer_expr_type(ctx, fields[i].value)),
                },
            ),
        )
    }
}

/// The type of the tail of a block, with the bindings of the block in
/// scope; unit without a tail.
pub open spec fn infer_block_type(ctx: CtxV, b: BlockV) -> TypeV
    decreases b, 0nat,
{
    let inner = CtxV { scopes: ctx.scopes.push(block_bindings(Map::empty(), b.stmts, 0)), ..ctx };
    match b.tail {
        Some(e) => or_unit(infer_expr_type(inner, *e)),
        None => named("Unit"),
    }
}

// ---------------------------------------------------------------------------
// The C names of types
// ---------------------------------------------------------------------------
/// The C name of a named type. `unit` is the name of the unit type: `void`
/// for what a function returns, `int` for a value.
pub open spec fn c_name(id: Name, unit: Option<&str>) -> Text {
    if id == "i32"@ {
        "int32_t"@
    } else if id == "i64"@ {
        "int64_t"@
    } else if id == "u8"@ {
        "uint8_t"@
    } else if id == "bool"@ {
        "bool"@
    } else if id == "Str"@ {
        "char*"@
    } else if id == "Bytes"@ {
        "gaut_bytes"@
    } else if id == "Unit"@ && unit is Some {
        unit->0@
    } else {
        id
    }
}

/// The C type for what a function returns.
pub open spec fn map_type(ty: TypeV) -> Text
    decreases ty, 0nat,
{
    match ty {
        TypeV::Named(id) => c_name(id, Some("void")),
        TypeV::Ref(inner) => map_type(*inner) + "*"@,
        TypeV::Record(fields) => map_fields(fields, 0, "struct {\n"@) + "}"@,
    }
}

/// The members of a C struct for the fields from `i` on, after `acc`.
pub open spec fn map_fields(fields: Seq<FieldV>, i: int, acc: Text) -> Text
    decreases fields, fields.len() - i,
{
    if i < 0 || i >= fields.len() {
        acc
    } else {
        map_fields(
            fields,
            i + 1,
            acc + "  "@ + map_type(fields[i].ty) + " "@ + fields[i].name + ";\n"@,
        )
    }
}

/// The C type for a value: as [`map_type`], but a name that stands for the
/// unit type is `int`.
pub open spec fn map_value_type(ctx: CtxV, ty: TypeV) -> Text
    decreases ty, 0nat,
{
    match ty {
        TypeV::Named(id) => if is_named(ctx, ty, "Unit") {
            "int"@
        } else {
            c_name(id, None)
        },
        TypeV::Ref(inner) => map_value_type(ctx, *inner) + "*"@,
        TypeV::Record(fields) => map_value_fields(ctx, fields, 0, "struct {\n"@) + "}"@,
    }
}

pub open spec fn map_value_fields(ctx: CtxV, fields: Seq<FieldV>, i: int, acc: Text) -> Text
    decreases fields, fields.len() - i,
{
    if i < 0 || i >= fields.len() {
        acc
    } else {
        map_value_fields(
            ctx,
            fields,
            i + 1,
            acc + "  "@ + map_value_type(ctx, fields[i].ty) + " "@ + fields[i].name + ";\n"@,
        )
    }
}

/// Whether two lists of fields have the same names in the same order, and
/// types that stand for the same.
pub open spec fn same_fields(ctx: CtxV, a: Seq<FieldV>, b: Seq<FieldV>) -> bool {
    a.len() == b.len() && forall|i: int|
        0 <= i < a.len() ==> (#[trigger] a[i]).name == b[i].name && resolved(ctx, a[i].ty)
            == resolved(ctx, b[i].ty)
}

/// Whether the type called `name` is a record type with the given fields.
pub open spec fn alias_matches(ctx: CtxV, name: Name, fields: Seq<FieldV>) -> bool {
    !is_builtin_name(name) && ctx.types.contains_key(name) && (resolved(
        ctx,
        ctx.types[name],
    ) matches TypeV::Record(other) && same_fields(ctx, fields, other))
}

/// The first declared type name, from index `i` on, that stands for a
/// record type with the given fields.
pub open spec fn first_alias(ctx: CtxV, fields: Seq<FieldV>, i: int) -> Option<Name>
    decreases ctx.names.len() - i,
{
    if i < 0 || i >= ctx.names.len() {
        None
    } else if alias_matches(ctx, ctx.names[i], fields) {
        Some(ctx.names[i])
    } else {
        first_alias(ctx, fields, i + 1)
    }
}

/// The name of a declared record type that a type stands for.
pub open spec fn find_record_alias(ctx: CtxV, ty: TypeV) -> Option<Name> {
    match resolved(ctx, ty) {
        TypeV::Record(fields) => first_alias(ctx, fields, 0),
        _ => None,
    }
}

// ---------------------------------------------------------------------------
// Expressions
// ---------------------------------------------------------------------------
/// Two spaces for each level of indentation.
pub open spec fn pad(n: nat) -> Text
    decreases n,
{
    if n == 0 {
        Seq::empty()
    } else {
        pad((n - 1) as nat) + "  "@
    }
}

/// The next number of a counter; the emitter gives up where it does not
/// fit the machine.
pub open spec fn bump(n: nat) -> Result<nat, CgenErrorV> {
    if n < usize::MAX {
        Ok(n + 1)
    } else {
        Err(CgenErrorV::Unsupported("too many temporaries"@))
    }
}

/// The segments of a path from `i` on, joined by dots.
pub open spec fn plain_path(out: Text, path: PathV, i: int) -> Text
    decreases path.len() - i,
{
    if i < 0 || i >= path.len() {
        out
    } else {
        plain_path(
            if i > 0 {
                out + "."@ + path[i]
            } else {
                out + path[i]
            },
            path,
            i + 1,
        )
    }
}

/// The fields of a path from `i` on: `->` behind what is known to be a
/// reference, `.` behind anything else. `current` is the type of what was
/// written so far, where it is known.
pub open spec fn typed_fields(
    out: Text,
    ctx: CtxV,
    current: Option<TypeV>,
    path: PathV,
    i: int,
) -> Text
    decreases path.len() - i,
{
    if i < 0 || i >= path.len() {
        out
    } else {
        match current {
            Some(ty) => match resolved(ctx, ty) {
                TypeV::Ref(inner) => typed_fields(
                    out + "->"@ + path[i],
                    ctx,
                    field_type(ctx, *inner, path[i]),
                    path,
                    i + 1,
                ),
                _ => typed_fields(
                    out + "."@ + path[i],
                    ctx,
                    field_type(ctx, ty, path[i]),
                    path,
                    i + 1,
                ),
            },
            None => typed_fields(out + "."@ + path[i], ctx, None, path, i + 1),
        }
    }
}

/// A path. With the declared types at hand, a field of a reference is
/// reached by `->`.
pub open spec fn emit_path(out: Text, ctx: Option<CtxV>, path: PathV) -> Text {
    match ctx {
        Some(c) if path.len() > 0 => typed_fields(
            out + path[0],
            c,
            type_of_ident(c, path[0]),
            path,
            1,
        ),
        _ => plain_path(out, path, 0),
    }
}

pub open spec fn op_text(op: BinaryOp) -> Text {
    match op {
        BinaryOp::Add => "+"@,
        BinaryOp::Sub => "-"@,
        BinaryOp::Mul => "*"@,
        BinaryOp::Div => "/"@,
        BinaryOp::Lt => "<"@,
        BinaryOp::Eq => "=="@,
        BinaryOp::And => "&&"@,
        BinaryOp::Or => "||"@,
    }
}

/// The runtime function that joins two strings (or byte buffers), in the
/// arena or on the heap.
pub open spec fn concat_fn(bytes: bool, in_arena: bool) -> Text {
    if bytes {
        if in_arena {
            "gaut_bytes_concat_arena"@
        } else {
            "gaut_bytes_concat_heap"@
        }
    } else {
        if in_arena {
            "gaut_str_concat_arena"@
        } else {
            "gaut_str_concat_heap"@
        }
    }
}

/// Which joining function a binary expression needs: `Some(false)` for
/// strings, `Some(true)` for byte buffers, `None` for an operator of C.
pub open spec fn concat_kind(ctx: CtxV, e: ExprV) -> Option<bool> {
    match e {
        ExprV::Binary { left, op, right } => match infer_expr_type(ctx, e) {
            Some(t) => if op == BinaryOp::Add && is_named(ctx, t, "Str") {
                Some(false)
            } else if op == BinaryOp::Add && is_named(ctx, t, "Bytes") {
                Some(true)
            } else {
                None
            },
            None => None,
        },
        _ => None,
    }
}

/// The C name of the type of a record literal: the name of a declared record
/// type with the same fields where there is one, else an anonymous struct.
pub open spec fn record_c_type(ctx: CtxV, e: ExprV) -> Text {
    let ty = match infer_expr_type(ctx, e) {
        Some(t) => t,
        None => TypeV::Record(Seq::empty()),
    };
    match find_record_alias(ctx, ty) {
        Some(name) => name,
        None => map_value_type(ctx, ty),
    }
}

/// The name of the scope that a block opens in the arena, the text with the
/// line (or, inside an expression, the statement) that opens it, and the
/// counters afterwards. Without an arena there is no scope.
pub open spec fn enter_scope(
    out: Text,
    lead: Text,
    arena: Option<Text>,
    ctrs: CountersV,
    end: Text,
) -> Result<(Text, Option<Text>, CountersV), CgenErrorV> {
    match arena {
        Some(a) => match bump(ctrs.scope) {
            Err(e) => Err(e),
            Ok(next) => {
                let name = "__scope"@ + nat_text(ctrs.scope);
                Ok(
                    (
                        out + lead + "gaut_scope "@ + name + " = gaut_scope_enter(&"@ + a + end,
                        Some(name),
                        CountersV { scope: next, ..ctrs },
                    ),
                )
            },
        },
        None => Ok((out, None, ctrs)),
    }
}

/// The line (or statement) that closes the scope of a block.
pub open spec fn leave_scope(
    out: Text,
    lead: Text,
    arena: Option<Text>,
    scope: Option<Text>,
    end: Text,
) -> Text {
    match (arena, scope) {
        (Some(a), Some(s)) => out + lead + "gaut_scope_leave(&"@ + a + ", "@ + s + end,
        _ => out,
    }
}

pub open spec fn emit_expr(
    ctx: CtxV,
    out: Text,
    e: ExprV,
    arena: Option<Text>,
    ctrs: CountersV,
) -> Emitted
    decreases e, 0nat,
{
    match e {
        ExprV::Literal(LiteralV::Int(i)) => Ok((out + int_text(i as int), ctrs)),
        ExprV::Literal(LiteralV::Bool(b)) => Ok(
            (
                out + (if b {
                    "true"@
                } else {
                    "false"@
                }),
                ctrs,
            ),
        ),
        ExprV::Literal(LiteralV::Str(s)) => Ok((out + "\""@ + s + "\""@, ctrs)),
        ExprV::Literal(LiteralV::Unit) => Ok((out + "0"@, ctrs)),
        ExprV::Path(p) => Ok((emit_path(out, Some(ctx), p), ctrs)),
        ExprV::Copy(inner) => emit_expr(ctx, out, *inner, arena, ctrs),
        ExprV::Ref(inner) => emit_expr(ctx, out + "&"@, *inner, arena, ctrs),
        ExprV::FuncCall { callee, args } => match emit_args(
            ctx,
            emit_path(out, None, callee) + "("@,
            args,
            0,
            arena,
            ctrs,
        ) {
            Err(e) => Err(e),
            Ok((o, c)) => Ok((o + ")"@, c)),
        },
        ExprV::If { cond, then_branch, else_branch } => match emit_expr(
            ctx,
            out + "("@,
            *cond,
            arena,
            ctrs,
        ) {
            Err(e) => Err(e),
            Ok((o1, c1)) => match emit_expr(ctx, o1 + " ? "@, *then_branch, arena, c1) {
                Err(e) => Err(e),
                Ok((o2, c2)) => match emit_expr(ctx, o2 + " : "@, *else_branch, arena, c2) {
                    Err(e) => Err(e),
                    Ok((o3, c3)) => Ok((o3 + ")"@, c3)),
                },
            },
        },
        ExprV::Block(b) => emit_block_expr(ctx, out, b, arena, ctrs),
        ExprV::RecordLit(fields) => match emit_inits(
            ctx,
            out + "("@ + record_c_type(ctx, e) + "){ "@,
            fields,
            0,
            arena,
            ctrs,
        ) {
            Err(e) => Err(e),
            Ok((o, c)) => Ok((o + " }"@, c)),
        },
        ExprV::Unary { op, expr } => emit_expr(
            ctx,
            out + (match op {
                UnaryOp::Neg => "-"@,
                UnaryOp::Not => "!"@,
            }),
            *expr,
            arena,
            ctrs,
        ),
        ExprV::Binary { left, op, right } => match concat_kind(ctx, e) {
            Some(bytes) => {
                let head = match arena {
                    Some(a) => out + concat_fn(bytes, true) + "(&"@ + a + ", "@,
                    None => out + concat_fn(bytes, false) + "("@,
                };
                match emit_expr(ctx, head, *left, arena, ctrs) {
                    Err(e) => Err(e),
                    Ok((o1, c1)) => match emit_expr(ctx, o1 + ", "@, *right, arena, c1) {
                        Err(e) => Err(e),
                        Ok((o2, c2)) => Ok((o2 + ")"@, c2)),
                    },
                }
            },
            None => match emit_expr(ctx, out, *left, arena, ctrs) {
                Err(e) => Err(e),
                Ok((o1, c1)) => emit_expr(
                    ctx,
                    o1 + " "@ + op_text(op) + " "@,
                    *right,
                    arena,
                    c1,
                ),
            },
        },
    }
}

/// The arguments of a call from index `i` on, separated by `, `.
pub open spec fn emit_args(
    ctx: CtxV,
    out: Text,
    args: Seq<ExprV>,
    i: int,
    arena: Option<Text>,
    ctrs: CountersV,
) -> Emitted
    decreases args, args.len() - i,
{
    if i < 0 || i >= args.len() {
        Ok((out, ctrs))
    } else {
        match emit_expr(
            ctx,
            if i > 0 {
                out + ", "@
            } else {
                out
            },
            args[i],
            arena,
            ctrs,
        ) {
            Err(e) => Err(e),
            Ok((o, c)) => emit_args(ctx, o, args, i + 1, arena, c),
        }
    }
}

/// The fields of a record literal from index `i` on, as designated
/// initializers separated by `, `.
pub open spec fn emit_inits(
    ctx: CtxV,
    out: Text,
    fields: Seq<FieldInitV>,
    i: int,
    arena: Option<Text>,
    ctrs: CountersV,
) -> Emitted
    decreases fields, fields.len() - i,
{
    if i < 0 || i >= fields.len() {
        Ok((out, ctrs))
    } else {
        match emit_expr(
            ctx,
            (if i > 0 {
                out + ", "@
            } else {
                out
            }) + "."@ + fields[i].name + " = "@,
            fields[i].value,
            arena,
            ctrs,
        ) {
            Err(e) => Err(e),
            Ok((o, c)) => emit_inits(ctx, o, fields, i + 1, arena, c),
        }
    }
}

/// A block as an expression: a GNU statement expression that opens a
/// scope in the arena, runs the statements, keeps the value of the tail (or
/// 0) in a temporary, closes the scope and yields the temporary.
pub open spec fn emit_block_expr(
    ctx: CtxV,
    out: Text,
    b: BlockV,
    arena: Option<Text>,
    ctrs: CountersV,
) -> Emitted
    decreases b, 1nat,
{
    let ty = infer_block_type(ctx, b);
    match bump(ctrs.tmp) {
        Err(e) => Err(e),
        Ok(next) => {
            let tmp = "__tmp"@ + nat_text(ctrs.tmp);
            match enter_scope(
                out + "({ "@,
                Seq::empty(),
                arena,
                CountersV { tmp: next, ..ctrs },
                "); "@,
            ) {
                Err(e) => Err(e),
                Ok((o1, scope, c1)) => match emit_stmts(
                    push_scope(ctx),
                    o1,
                    b.stmts,
                    0,
                    0,
                    arena,
                    c1,
                ) {
                    Err(e) => Err(e),
                    Ok((o2, ctx2, c2)) => {
                        let cty = map_value_type(ctx2, ty);
                        let tail = match b.tail {
                            Some(e) => match emit_expr(
                                ctx2,
                                o2 + cty + " "@ + tmp + " = "@,
                                *e,
                                arena,
                                c2,
                            ) {
                                Err(e) => Err(e),
                                Ok((o, c)) => Ok((o + "; "@, c)),
                            },
                            None => Ok((o2 + cty + " "@ + tmp + " = 0; "@, c2)),
                        };
                        match tail {
                            Err(e) => Err(e),
                            Ok((o3, c3)) => Ok(
                                (
                                    leave_scope(o3, Seq::empty(), arena, scope, "); "@) + tmp
                                        + "; })"@,
                                    c3,
                                ),
                            ),
                        }
                    },
                },
            }
        },
    }
}

// ---------------------------------------------------------------------------
// Statements
// ---------------------------------------------------------------------------
/// The text, the declared types and the counters behind a statement.
pub type EmittedStmt = Result<(Text, CtxV, CountersV), CgenErrorV>;

pub open spec fn emit_stmt(
    ctx: CtxV,
    out: Text,
    s: StmtV,
    indent: nat,
    arena: Option<Text>,
    ctrs: CountersV,
) -> EmittedStmt
    decreases s, 0nat,
{
    match s {
        StmtV::Binding(b) => match emit_expr(
            ctx,
            out + pad(indent) + map_value_type(ctx, b.ty) + " "@ + b.name + " = "@,
            b.value,
            arena,
            ctrs,
        ) {
            Err(e) => Err(e),
            Ok((o, c)) => Ok((o + ";\n"@, insert_var(ctx, b.name, b.ty), c)),
        },
        StmtV::Assign { target, value } => match emit_expr(
            ctx,
            emit_path(out + pad(indent), Some(ctx), target) + " = "@,
            value,
            arena,
            ctrs,
        ) {
            Err(e) => Err(e),
            Ok((o, c)) => Ok((o + ";\n"@, ctx, c)),
        },
        StmtV::Expr(e) => match emit_expr(ctx, out + pad(indent), e, arena, ctrs) {
            Err(e) => Err(e),
            Ok((o, c)) => Ok((o + ";\n"@, ctx, c)),
        },
    }
}

pub open spec fn emit_stmts(
    ctx: CtxV,
    out: Text,
    stmts: Seq<StmtV>,
    i: int,
    indent: nat,
    arena: Option<Text>,
    ctrs: CountersV,
) -> EmittedStmt
    decreases stmts, stmts.len() - i,
{
    if i < 0 || i >= stmts.len() {
        Ok((out, ctx, ctrs))
    } else {
        match emit_stmt(ctx, out, stmts[i], indent, arena, ctrs) {
            Err(e) => Err(e),
            Ok((o, c2, k)) => emit_stmts(c2, o, stmts, i + 1, indent, arena, k),
        }
    }
}

// ---------------------------------------------------------------------------
// Functions
// ---------------------------------------------------------------------------
/// The body of a function: a scope in the arena, the statements, and the
/// tail as what the function returns. `main` returns 0 where its type is
/// unit. A body without a tail must have the unit type.
pub open spec fn emit_block(
    ctx: CtxV,
    out: Text,
    stmts: Seq<StmtV>,
    tail: Option<ExprV>,
    indent: nat,
    ret_ty: TypeV,
    arena: Option<Text>,
    is_main: bool,
    ctrs: CountersV,
) -> Emitted {
    let lead = pad(indent);
    match enter_scope(out, lead, arena, ctrs, ");\n"@) {
        Err(e) => Err(e),
        Ok((o1, scope, c1)) => match emit_stmts(push_scope(ctx), o1, stmts, 0, indent, arena, c1) {
            Err(e) => Err(e),
            Ok((o2, ctx2, c2)) => match tail {
                Some(e) => {
                    let ret_arena = if is_named(ctx2, ret_ty, "Str") || is_named(
                        ctx2,
                        ret_ty,
                        "Bytes",
                    ) {
                        None
                    } else {
                        arena
                    };
                    if is_named(ctx2, ret_ty, "Unit") {
                        match emit_expr(ctx2, o2 + lead, e, ret_arena, c2) {
                            Err(e) => Err(e),
                            Ok((o3, c3)) => {
                                let o4 = leave_scope(o3 + ";\n"@, lead, arena, scope, ");\n"@);
                                Ok(
                                    (
                                        if is_main {
                                            o4 + lead + "return 0;\n"@
                                        } else {
                                            o4
                                        },
                                        c3,
                                    ),
                                )
                            },
                        }
                    } else {
                        match bump(c2.tmp) {
                            Err(e) => Err(e),
                            Ok(next) => {
                                let tmp = "__ret"@ + nat_text(c2.tmp);
                                match emit_expr(
                                    ctx2,
                                    o2 + lead + map_value_type(ctx2, ret_ty) + " "@ + tmp
                                        + " = "@,
                                    e,
                                    ret_arena,
                                    CountersV { tmp: next, ..c2 },
                                ) {
                                    Err(e) => Err(e),
                                    Ok((o3, c3)) => Ok(
                                        (
                                            leave_scope(
                                                o3 + ";\n"@,
                                                lead,
                                                arena,
                                                scope,
                                                ");\n"@,
                                            ) + lead + "return "@ + tmp + ";\n"@,
                                            c3,
                                        ),
                                    ),
                                }
                            },
                        }
                    }
                },
                None => if !is_named(ctx2, ret_ty, "Unit") {
                    Err(CgenErrorV::Unsupported("missing return expression"@))
                } else {
                    let o3 = leave_scope(o2, lead, arena, scope, ");\n"@);
                    Ok(
                        (
                            if is_main {
                                o3 + lead + "return 0;\n"@
                            } else {
                                o3
                            },
                            c2,
                        ),
                    )
                },
            },
        },
    }
}

/// Declares the parameters from index `i` on in the innermost scope.
pub open spec fn bind_params(ctx: CtxV, params: Seq<ParamV>, i: int) -> CtxV
    decreases params.len() - i,
{
    if i < 0 || i >= params.len() {
        ctx
    } else {
        bind_params(insert_var(ctx, params[i].name, params[i].ty), params, i + 1)
    }
}

/// The parameters from index `i` on, separated by `, `.
pub open spec fn emit_params(ctx: CtxV, out: Text, params: Seq<ParamV>, i: int) -> Text
    decreases params.len() - i,
{
    if i < 0 || i >= params.len() {
        out
    } else {
        emit_params(
            ctx,
            (if i > 0 {
                out + ", "@
            } else {
                out
            }) + map_value_type(ctx, params[i].ty) + " "@ + params[i].name,
            params,
            i + 1,
        )
    }
}

/// A `print` or `println` of the program: the runtime's function under the
/// program's name.
pub open spec fn emit_builtin_print(out: Text, name: Name) -> Text {
    out + "char*"@ + " "@ + name + "("@ + "char*"@ + " msg) {\n"@ + "  "@ + (if name == "print"@ {
        "gaut_print"@
    } else {
        "gaut_println"@
    }) + "(msg);\n"@ + "  return msg;\n"@ + "}\n\n"@
}

/// A `read_file`, `write_file` or `args` of the program: the runtime's
/// function under the program's name.
pub open spec fn emit_builtin_io(out: Text, name: Name) -> Text {
    if name == "read_file"@ {
        out + "char*"@ + " read_file("@ + "char*"@ + " path) {\n"@
            + "  return gaut_read_file(path);\n"@ + "}\n\n"@
    } else if name == "write_file"@ {
        out + "void write_file(char* path, char* data) {\n"@ + "  gaut_write_file(path, data);\n"@
            + "}\n\n"@
    } else if name == "args"@ {
        out + "gaut_bytes"@ + " args() {\n"@ + "  return gaut_args();\n"@ + "}\n\n"@
    } else {
        out
    }
}

pub open spec fn is_runtime_io(name: Name) -> bool {
    name == "read_file"@ || name == "write_file"@ || name == "args"@
}

/// The statements and the tail of the body of a function: those of a
/// block, or an expression as the tail.
pub open spec fn body_stmts(body: ExprV) -> Seq<StmtV> {
    match body {
        ExprV::Block(b) => b.stmts,
        _ => Seq::empty(),
    }
}

pub open spec fn body_tail(body: ExprV) -> Option<ExprV> {
    match body {
        ExprV::Block(b) => match b.tail {
            Some(e) => Some(*e),
            None => None,
        },
        other => Some(other),
    }
}

/// The return type of a function: the declared one, or else what the body
/// is taken to have with the parameters in scope.
pub open spec fn return_type(ctx: CtxV, f: FuncDeclV) -> TypeV {
    match f.ret {
        Some(t) => t,
        None => or_unit(infer_expr_type(bind_params(push_scope(ctx), f.params, 0), f.body)),
    }
}

/// A function. `main` returns `int`. The body runs in an arena of its own.
pub open spec fn emit_function(ctx: CtxV, out: Text, f: FuncDeclV) -> Result<Text, CgenErrorV> {
    if f.name == "print"@ || f.name == "println"@ {
        Ok(emit_builtin_print(out, f.name))
    } else if is_runtime_io(f.name) {
        Ok(emit_builtin_io(out, f.name))
    } else {
        let ret_ty = return_type(ctx, f);
        let ret_cty = if f.name == "main"@ {
            "int"@
        } else {
            map_type(ret_ty)
        };
        let head = emit_params(ctx, out + ret_cty + " "@ + f.name + "("@, f.params, 0) + ") {\n"@
            + "  uint8_t __arena_buf[GAUT_DEFAULT_ARENA_CAP];\n"@
            + "  gaut_arena __arena = gaut_arena_from_buffer(__arena_buf, GAUT_DEFAULT_ARENA_CAP);\n"@
            + "\n"@;
        match emit_block(
            bind_params(push_scope(ctx), f.params, 0),
            head,
            body_stmts(f.body),
            body_tail(f.body),
            1,
            ret_ty,
            Some("__arena"@),
            f.name == "main"@,
            CountersV { tmp: 0, scope: 0 },
        ) {
            Err(e) => Err(e),
            Ok((o, _)) => Ok(o + "}\n\n"@),
        }
    }
}

/// A top-level binding: a global variable with its initializer.
pub open spec fn emit_global(ctx: CtxV, out: Text, b: BindingV) -> Result<Text, CgenErrorV> {
    match emit_expr(
        ctx,
        out + map_value_type(ctx, b.ty) + " "@ + b.name + " = "@,
        b.value,
        None,
        CountersV { tmp: 0, scope: 0 },
    ) {
        Err(e) => Err(e),
        Ok((o, _)) => Ok(o + ";\n\n"@),
    }
}

/// A type declaration: a `typedef`, of a struct for a record type.
pub open spec fn emit_type_decl(ctx: CtxV, out: Text, name: Name, ty: TypeV) -> Text {
    (match resolved(ctx, ty) {
        TypeV::Record(fields) => map_fields(fields, 0, out + "typedef struct {\n"@) + "} "@ + name
            + ";\n"@,
        other => out + "typedef "@ + map_type(other) + " "@ + name + ";\n"@,
    }) + "\n"@
}

// ---------------------------------------------------------------------------
// Programs
// ---------------------------------------------------------------------------
/// The names of the functions among the first `n` declarations.
pub open spec fn func_names(decls: Seq<DeclV>, n: int) -> Set<Name>
    decreases n,
{
    if n <= 0 || n > decls.len() {
        Set::empty()
    } else {
        match decls[n - 1] {
            DeclV::Func(f) => func_names(decls, n - 1).insert(f.name),
            _ => func_names(decls, n - 1),
        }
    }
}

/// A C function for each builtin that the program does not define itself.
pub open spec fn emit_builtin_shims(out: Text, defined: Set<Name>) -> Text {
    let o1 = if !defined.contains("print"@) {
        out + "char* print(char* msg) { gaut_print(msg); return msg; }\n"@
    } else {
        out
    };
    let o2 = if !defined.contains("println"@) {
        o1 + "char* println(char* msg) { gaut_println(msg); return msg; }\n"@
    } else {
        o1
    };
    let o3 = if !defined.contains("read_file"@) {
        o2 + "char* read_file(char* path) { return gaut_read_file(path); }\n"@
    } else {
        o2
    };
    let o4 = if !defined.contains("write_file"@) {
        o3 + "void write_file(char* path, char* data) { gaut_write_file(path, data); }\n"@
    } else {
        o3
    };
    let o5 = if !defined.contains("args"@) {
        o4 + "gaut_bytes args() { return gaut_args(); }\n"@
    } else {
        o4
    };
    o5 + "\n"@
}

/// The type declarations from `i` on.
pub open spec fn emit_types(ctx: CtxV, out: Text, decls: Seq<DeclV>, i: int) -> Text
    decreases decls.len() - i,
{
    if i < 0 || i >= decls.len() {
        out
    } else {
        match decls[i] {
            DeclV::Type { name, ty } => emit_types(
                ctx,
                emit_type_decl(ctx, out, name, ty),
                decls,
                i + 1,
            ),
            _ => emit_types(ctx, out, decls, i + 1),
        }
    }
}

/// The top-level bindings from `i` on.
pub open spec fn emit_globals(ctx: CtxV, out: Text, decls: Seq<DeclV>, i: int) -> Result<
    Text,
    CgenErrorV,
>
    decreases decls.len() - i,
{
    if i < 0 || i >= decls.len() {
        Ok(out)
    } else {
        match decls[i] {
            DeclV::Global(b) | DeclV::Let(b) => match emit_global(ctx, out, b) {
                Err(e) => Err(e),
                Ok(o) => emit_globals(ctx, o, decls, i + 1),
            },
            _ => emit_globals(ctx, out, decls, i + 1),
        }
    }
}

/// The functions from `i` on.
pub open spec fn emit_funcs(ctx: CtxV, out: Text, decls: Seq<DeclV>, i: int) -> Result<
    Text,
    CgenErrorV,
>
    decreases decls.len() - i,
{
    if i < 0 || i >= decls.len() {
        Ok(out)
    } else {
        match decls[i] {
            DeclV::Func(f) => match emit_function(ctx, out, f) {
                Err(e) => Err(e),
                Ok(o) => emit_funcs(ctx, o, decls, i + 1),
            },
            _ => emit_funcs(ctx, out, decls, i + 1),
        }
    }
}

pub open spec fn header() -> Text {
    "#include <stdint.h>\n"@ + "#include <stdbool.h>\n"@ + "#include <stddef.h>\n"@
        + "#include \"runtime.h\"\n\n"@
}

/// The C source of a program: the includes, the builtins that
/// the program leaves to the runtime, the types, the top-level bindings and
/// the functions, each group in the order of the declarations.
pub open spec fn generate_c(decls: Seq<DeclV>) -> Result<Text, CgenErrorV> {
    let ctx = program_ctx(decls);
    let o1 = emit_builtin_shims(header(), func_names(decls, decls.len() as int));
    let o2 = emit_types(ctx, o1, decls, 0);
    match emit_globals(ctx, o2, decls, 0) {
        Err(e) => Err(e),
        Ok(o3) => emit_funcs(ctx, o3, decls, 0),
    }
}

} // verus!

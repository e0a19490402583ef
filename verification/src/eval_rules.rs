//! The evaluator's rules, as mathematics.
//!
//! An environment is a stack of scopes, each a map from names to cells; a
//! cell holds a value or is empty after a move. Every rule is a function from
//! an environment and a piece of syntax to the next environment and a result.
//! The executable evaluator in [`crate::interp`] is proved to compute exactly
//! these functions.

use crate::ast::{
    BinaryOp, BindingV, BlockV, DeclV, ExprV, FieldInitV, FuncDeclV, LiteralV, Name, ParamV,
    PathV, StmtV, UnaryOp,
};
use crate::check_rules::{path_text, ValueMode};
use crate::scopes::find_scope;
use crate::value::{debug_text, index_of, put, value_eq, EntryV, ValueV};
use vstd::prelude::*;

verus! {

// ---------------------------------------------------------------------------
// State
// ---------------------------------------------------------------------------
/// Model of a run-time error.
pub enum RuntimeErrorV {
    UnknownIdent(Seq<char>),
    Moved(Seq<char>),
    NotMutable(Seq<char>),
    FieldNotFound(Seq<char>),
    Type(Seq<char>),
}

/// One binding at run time: `value` is `None` after a move.
pub struct CellV {
    pub mutable: bool,
    pub value: Option<ValueV>,
}

/// The scopes, innermost last, and the text printed so far.
pub struct EnvV {
    pub scopes: Seq<Map<Name, CellV>>,
    pub out: Seq<char>,
}

pub type Evaled<T> = (EnvV, Result<T, RuntimeErrorV>);

pub open spec fn type_error<T>(msg: &str) -> Result<T, RuntimeErrorV> {
    Err(RuntimeErrorV::Type(msg@))
}

pub open spec fn empty_env() -> EnvV {
    EnvV { scopes: Seq::empty(), out: Seq::empty() }
}

pub open spec fn push_scope(env: EnvV) -> EnvV {
    EnvV { scopes: env.scopes.push(Map::empty()), ..env }
}

pub open spec fn pop_scope(env: EnvV) -> EnvV {
    if env.scopes.len() == 0 {
        env
    } else {
        EnvV { scopes: env.scopes.drop_last(), ..env }
    }
}

/// Declares `name` in the innermost scope; without any scope, in a new one.
pub open spec fn insert_cell(env: EnvV, name: Name, cell: CellV) -> EnvV {
    if env.scopes.len() == 0 {
        EnvV { scopes: seq![Map::<Name, CellV>::empty().insert(name, cell)], ..env }
    } else {
        EnvV {
            scopes: env.scopes.update(
                env.scopes.len() - 1,
                env.scopes.last().insert(name, cell),
            ),
            ..env
        }
    }
}

/// Replaces the cell of `name` in scope `d`.
pub open spec fn set_cell(env: EnvV, d: int, name: Name, cell: CellV) -> EnvV {
    EnvV { scopes: env.scopes.update(d, env.scopes[d].insert(name, cell)), ..env }
}

// ---------------------------------------------------------------------------
// Paths
// ---------------------------------------------------------------------------
/// Takes the field `name` out of a record value.
pub open spec fn extract_field(v: ValueV, name: Name) -> Result<ValueV, RuntimeErrorV> {
    match v {
        ValueV::Record(entries) => match index_of(entries, name) {
            Some(i) => Ok(entries[i].value),
            None => Err(RuntimeErrorV::FieldNotFound(name)),
        },
        _ => type_error("field access on non-record"),
    }
}

/// Follows field names from a value.
pub open spec fn extract_fields(v: ValueV, rest: Seq<Name>) -> Result<ValueV, RuntimeErrorV>
    decreases rest.len(),
{
    if rest.len() == 0 {
        Ok(v)
    } else {
        match extract_field(v, rest[0]) {
            Err(e) => Err(e),
            Ok(inner) => extract_fields(inner, rest.drop_first()),
        }
    }
}

/// Reads a path. Every mode fails on an empty cell. `Move` empties the cell
/// of the binding that the path starts at, also where the path goes on into
/// a field; `Copy` and `Borrow` leave the environment as it is.
pub open spec fn read_value(env: EnvV, path: PathV, mode: ValueMode) -> Evaled<ValueV> {
    if path.len() == 0 {
        (env, Err(RuntimeErrorV::UnknownIdent(Seq::empty())))
    } else {
        match find_scope(env.scopes, path[0]) {
            None => (env, Err(RuntimeErrorV::UnknownIdent(path[0]))),
            Some(d) => {
                let cell = env.scopes[d][path[0]];
                match cell.value {
                    None => (env, Err(RuntimeErrorV::Moved(path[0]))),
                    Some(v) => {
                        let next = match mode {
                            ValueMode::Move => set_cell(
                                env,
                                d,
                                path[0],
                                CellV { value: None, ..cell },
                            ),
                            _ => env,
                        };
                        (next, extract_fields(v, path.drop_first()))
                    },
                }
            },
        }
    }
}

/// Replaces what lies at the end of `path` inside `target`.
pub open spec fn set_field(target: ValueV, path: Seq<Name>, value: ValueV) -> Result<
    ValueV,
    RuntimeErrorV,
>
    decreases path.len(),
{
    if path.len() == 0 {
        Ok(value)
    } else {
        match target {
            ValueV::Record(entries) => match index_of(entries, path[0]) {
                None => Err(RuntimeErrorV::FieldNotFound(path[0])),
                Some(i) => match set_field(entries[i].value, path.drop_first(), value) {
                    Err(e) => Err(e),
                    Ok(inner) => Ok(
                        ValueV::Record(entries.update(i, EntryV { key: path[0], value: inner })),
                    ),
                },
            },
            _ => type_error("assignment into non-record field"),
        }
    }
}

/// Assigns to a path. The binding must be mutable. Assigning to the binding
/// itself makes it present, whatever it was; assigning to a field needs a
/// present binding and changes only that field.
pub open spec fn assign_path(env: EnvV, path: PathV, value: ValueV) -> Evaled<()> {
    if path.len() == 0 {
        (env, Err(RuntimeErrorV::UnknownIdent(Seq::empty())))
    } else {
        match find_scope(env.scopes, path[0]) {
            None => (env, Err(RuntimeErrorV::UnknownIdent(path[0]))),
            Some(d) => {
                let cell = env.scopes[d][path[0]];
                if !cell.mutable {
                    (env, Err(RuntimeErrorV::NotMutable(path[0])))
                } else if path.len() == 1 {
                    (set_cell(env, d, path[0], CellV { value: Some(value), ..cell }), Ok(()))
                } else {
                    match cell.value {
                        None => (env, Err(RuntimeErrorV::Moved(path[0]))),
                        Some(old) => match set_field(old, path.drop_first(), value) {
                            Err(e) => (env, Err(e)),
                            Ok(new) => (
                                set_cell(env, d, path[0], CellV { value: Some(new), ..cell }),
                                Ok(()),
                            ),
                        },
                    }
                }
            },
        }
    }
}

// ---------------------------------------------------------------------------
// Operators
// ---------------------------------------------------------------------------
pub open spec fn fits(i: int) -> bool {
    i64::MIN <= i <= i64::MAX
}

/// Integer results that do not fit 64 bits are errors, and so is a division
/// by zero.
pub open spec fn int_result(i: int) -> Result<ValueV, RuntimeErrorV> {
    if fits(i) {
        Ok(ValueV::Int(i as i64))
    } else {
        type_error("integer overflow")
    }
}

/// Division that rounds toward zero.
pub open spec fn div_toward_zero(a: int, b: int) -> int
    recommends
        b != 0,
{
    if a >= 0 && b > 0 {
        a / b
    } else if a < 0 && b > 0 {
        -((-a) / b)
    } else if a >= 0 && b < 0 {
        -(a / (-b))
    } else {
        (-a) / (-b)
    }
}

pub open spec fn eval_binary(l: ValueV, r: ValueV, op: BinaryOp) -> Result<ValueV, RuntimeErrorV> {
    match op {
        BinaryOp::Add => match (l, r) {
            (ValueV::Int(a), ValueV::Int(b)) => int_result(a + b),
            (ValueV::Str(a), ValueV::Str(b)) => Ok(ValueV::Str(a + b)),
            _ => type_error("invalid operands for +"),
        },
        BinaryOp::Sub => match (l, r) {
            (ValueV::Int(a), ValueV::Int(b)) => int_result(a - b),
            _ => type_error("invalid operands for -"),
        },
        BinaryOp::Mul => match (l, r) {
            (ValueV::Int(a), ValueV::Int(b)) => int_result(a * b),
            _ => type_error("invalid operands for *"),
        },
        BinaryOp::Div => match (l, r) {
            (ValueV::Int(a), ValueV::Int(b)) => if b == 0 {
                type_error("division by zero")
            } else {
                int_result(div_toward_zero(a as int, b as int))
            },
            _ => type_error("invalid operands for /"),
        },
        BinaryOp::Lt => match (l, r) {
            (ValueV::Int(a), ValueV::Int(b)) => Ok(ValueV::Bool(a < b)),
            _ => type_error("invalid operands for <"),
        },
        BinaryOp::Eq => Ok(ValueV::Bool(value_eq(l, r))),
        BinaryOp::And => match (l, r) {
            (ValueV::Bool(a), ValueV::Bool(b)) => Ok(ValueV::Bool(a && b)),
            _ => type_error("invalid operands for &&"),
        },
        BinaryOp::Or => match (l, r) {
            (ValueV::Bool(a), ValueV::Bool(b)) => Ok(ValueV::Bool(a || b)),
            _ => type_error("invalid operands for ||"),
        },
    }
}

pub open spec fn eval_unary(op: UnaryOp, v: ValueV) -> Result<ValueV, RuntimeErrorV> {
    match (op, v) {
        (UnaryOp::Neg, ValueV::Int(i)) => int_result(-i),
        (UnaryOp::Not, ValueV::Bool(b)) => Ok(ValueV::Bool(!b)),
        _ => type_error("invalid unary operand"),
    }
}

pub open spec fn literal_value(l: LiteralV) -> ValueV {
    match l {
        LiteralV::Int(i) => ValueV::Int(i),
        LiteralV::Bool(b) => ValueV::Bool(b),
        LiteralV::Str(s) => ValueV::Str(s),
        LiteralV::Unit => ValueV::Unit,
    }
}

/// What `print` and `println` write for a value: a string as it is, any
/// other value as `{:?}` prints it.
pub open spec fn printed(v: ValueV) -> Seq<char> {
    match v {
        ValueV::Str(s) => s,
        other => debug_text(other),
    }
}

pub open spec fn is_print(name: Name) -> bool {
    name == "print"@ || name == "println"@
}

// ---------------------------------------------------------------------------
// Expressions and statements
// ---------------------------------------------------------------------------
/// The value of an expression.
///
/// `fuel` bounds the depth of nested calls: a call with no fuel left is an
/// error. Everything is evaluated left to right, and of the two branches of
/// an `if` only the one that the condition picks.
pub open spec fn eval_expr(
    funcs: Map<Name, FuncDeclV>,
    env: EnvV,
    e: ExprV,
    mode: ValueMode,
    fuel: nat,
) -> Evaled<ValueV>
    decreases fuel, e, 0nat,
{
    match e {
        ExprV::Literal(l) => (env, Ok(literal_value(l))),
        ExprV::Path(p) => read_value(env, p, mode),
        ExprV::Copy(inner) => eval_expr(funcs, env, *inner, ValueMode::Copy, fuel),
        ExprV::Ref(inner) => eval_expr(funcs, env, *inner, ValueMode::Borrow, fuel),
        ExprV::FuncCall { callee, args } => eval_call(funcs, env, callee, args, fuel),
        ExprV::If { cond, then_branch, else_branch } => {
            let (e1, rc) = eval_expr(funcs, env, *cond, ValueMode::Move, fuel);
            match rc {
                Err(e) => (e1, Err(e)),
                Ok(ValueV::Bool(true)) => eval_expr(funcs, e1, *then_branch, ValueMode::Move, fuel),
                Ok(ValueV::Bool(false)) => eval_expr(
                    funcs,
                    e1,
                    *else_branch,
                    ValueMode::Move,
                    fuel,
                ),
                Ok(_) => (e1, type_error("if condition must be bool")),
            }
        },
        ExprV::Block(b) => eval_block(funcs, env, b, fuel),
        ExprV::RecordLit(fields) => eval_record(funcs, env, fields, 0, Seq::empty(), fuel),
        ExprV::Unary { op, expr } => {
            let (e1, r) = eval_expr(funcs, env, *expr, ValueMode::Move, fuel);
            match r {
                Err(e) => (e1, Err(e)),
                Ok(v) => (e1, eval_unary(op, v)),
            }
        },
        ExprV::Binary { left, op, right } => {
            let (e1, rl) = eval_expr(funcs, env, *left, ValueMode::Move, fuel);
            match rl {
                Err(e) => (e1, Err(e)),
                Ok(l) => {
                    let (e2, rr) = eval_expr(funcs, e1, *right, ValueMode::Move, fuel);
                    match rr {
                        Err(e) => (e2, Err(e)),
                        Ok(r) => (e2, eval_binary(l, r, op)),
                    }
                },
            }
        },
    }
}

/// A call. A function of the program is preferred to a builtin of the same
/// name. `print` and `println` take one argument, add its text to the
/// output, `println` with a line end, and return the text.
pub open spec fn eval_call(
    funcs: Map<Name, FuncDeclV>,
    env: EnvV,
    callee: PathV,
    args: Seq<ExprV>,
    fuel: nat,
) -> Evaled<ValueV>
    decreases fuel, args, args.len() + 1,
{
    let name = path_text(callee);
    if funcs.contains_key(name) {
        let (e1, r) = eval_args(funcs, env, args, 0, Seq::empty(), fuel);
        match r {
            Err(e) => (e1, Err(e)),
            Ok(values) => if fuel == 0 {
                (e1, type_error("call depth exceeded"))
            } else {
                call_function(funcs, e1, funcs[name], values, (fuel - 1) as nat)
            },
        }
    } else if is_print(name) {
        if args.len() != 1 {
            (env, type_error("print/println expects one argument"))
        } else {
            let (e1, r) = eval_expr(funcs, env, args[0], ValueMode::Move, fuel);
            match r {
                Err(e) => (e1, Err(e)),
                Ok(v) => {
                    let text = printed(v);
                    let line = if name == "print"@ {
                        text
                    } else {
                        text.push('\n')
                    };
                    (EnvV { out: e1.out + line, ..e1 }, Ok(ValueV::Str(text)))
                },
            }
        }
    } else {
        (env, Err(RuntimeErrorV::UnknownIdent(name)))
    }
}

/// The values of the arguments from index `i` on, after `acc`.
pub open spec fn eval_args(
    funcs: Map<Name, FuncDeclV>,
    env: EnvV,
    args: Seq<ExprV>,
    i: int,
    acc: Seq<ValueV>,
    fuel: nat,
) -> Evaled<Seq<ValueV>>
    decreases fuel, args, args.len() - i,
{
    if i < 0 || i >= args.len() {
        (env, Ok(acc))
    } else {
        let (e1, r) = eval_expr(funcs, env, args[i], ValueMode::Move, fuel);
        match r {
            Err(e) => (e1, Err(e)),
            Ok(v) => eval_args(funcs, e1, args, i + 1, acc.push(v), fuel),
        }
    }
}

/// The record built from the fields from index `i` on, after `acc`.
pub open spec fn eval_record(
    funcs: Map<Name, FuncDeclV>,
    env: EnvV,
    fields: Seq<FieldInitV>,
    i: int,
    acc: Seq<EntryV>,
    fuel: nat,
) -> Evaled<ValueV>
    decreases fuel, fields, fields.len() - i,
{
    if i < 0 || i >= fields.len() {
        (env, Ok(ValueV::Record(acc)))
    } else {
        let (e1, r) = eval_expr(funcs, env, fields[i].value, ValueMode::Move, fuel);
        match r {
            Err(e) => (e1, Err(e)),
            Ok(v) => eval_record(funcs, e1, fields, i + 1, put(acc, fields[i].name, v), fuel),
        }
    }
}

/// Binds the arguments to the parameters from index `i` on.
pub open spec fn bind_args(env: EnvV, params: Seq<ParamV>, args: Seq<ValueV>, i: int) -> EnvV
    decreases params.len() - i,
{
    if i < 0 || i >= params.len() || i >= args.len() {
        env
    } else {
        bind_args(
            insert_cell(
                env,
                params[i].name,
                CellV { mutable: params[i].mutable, value: Some(args[i]) },
            ),
            params,
            args,
            i + 1,
        )
    }
}

/// Runs a function on argument values: in a new scope that holds the
/// parameters, on top of the scopes of the caller. The scope is closed again,
/// whether or not the body succeeded.
pub open spec fn call_function(
    funcs: Map<Name, FuncDeclV>,
    env: EnvV,
    f: FuncDeclV,
    args: Seq<ValueV>,
    fuel: nat,
) -> Evaled<ValueV>
    decreases fuel, f.body, 2nat,
{
    if f.params.len() != args.len() {
        (env, type_error("arity mismatch"))
    } else {
        let e1 = bind_args(push_scope(env), f.params, args, 0);
        let (e2, r) = match f.body {
            ExprV::Block(b) => eval_block(funcs, e1, b, fuel),
            other => eval_expr(funcs, e1, other, ValueMode::Move, fuel),
        };
        (pop_scope(e2), r)
    }
}

/// A block opens a scope, runs its statements, takes the value of its tail
/// (unit without one), and closes the scope again, whether or not it
/// succeeded.
pub open spec fn eval_block(funcs: Map<Name, FuncDeclV>, env: EnvV, b: BlockV, fuel: nat) -> Evaled<
    ValueV,
>
    decreases fuel, b, 1nat,
{
    let (e1, r) = block_body(funcs, push_scope(env), b, fuel);
    (pop_scope(e1), r)
}

pub open spec fn block_body(funcs: Map<Name, FuncDeclV>, env: EnvV, b: BlockV, fuel: nat) -> Evaled<
    ValueV,
>
    decreases fuel, b, 0nat,
{
    let (e1, r) = eval_stmts(funcs, env, b.stmts, 0, fuel);
    match r {
        Err(e) => (e1, Err(e)),
        Ok(()) => match b.tail {
            None => (e1, Ok(ValueV::Unit)),
            Some(tail) => eval_expr(funcs, e1, *tail, ValueMode::Move, fuel),
        },
    }
}

pub open spec fn eval_stmts(
    funcs: Map<Name, FuncDeclV>,
    env: EnvV,
    stmts: Seq<StmtV>,
    i: int,
    fuel: nat,
) -> Evaled<()>
    decreases fuel, stmts, stmts.len() - i,
{
    if i < 0 || i >= stmts.len() {
        (env, Ok(()))
    } else {
        let (e1, r) = eval_stmt(funcs, env, stmts[i], fuel);
        match r {
            Err(e) => (e1, Err(e)),
            Ok(()) => eval_stmts(funcs, e1, stmts, i + 1, fuel),
        }
    }
}

pub open spec fn eval_stmt(funcs: Map<Name, FuncDeclV>, env: EnvV, s: StmtV, fuel: nat) -> Evaled<
    (),
>
    decreases fuel, s, 0nat,
{
    match s {
        StmtV::Binding(b) => {
            let (e1, r) = eval_expr(funcs, env, b.value, ValueMode::Move, fuel);
            match r {
                Err(e) => (e1, Err(e)),
                Ok(v) => (
                    insert_cell(e1, b.name, CellV { mutable: b.mutable, value: Some(v) }),
                    Ok(()),
                ),
            }
        },
        StmtV::Assign { target, value } => {
            let (e1, r) = eval_expr(funcs, env, value, ValueMode::Move, fuel);
            match r {
                Err(e) => (e1, Err(e)),
                Ok(v) => assign_path(e1, target, v),
            }
        },
        StmtV::Expr(e) => {
            let (e1, r) = eval_expr(funcs, env, e, ValueMode::Move, fuel);
            match r {
                Err(e) => (e1, Err(e)),
                Ok(_) => (e1, Ok(())),
            }
        },
    }
}

// ---------------------------------------------------------------------------
// Programs
// ---------------------------------------------------------------------------
/// What an interpreter holds between calls.
pub struct InterpV {
    pub globals: Map<Name, CellV>,
    pub funcs: Map<Name, FuncDeclV>,
    pub out: Seq<char>,
}

/// The functions among the declarations from `i` on, added to `funcs`; of
/// two functions with one name the later one stays.
pub open spec fn collect_funcs(funcs: Map<Name, FuncDeclV>, decls: Seq<DeclV>, i: int) -> Map<
    Name,
    FuncDeclV,
>
    decreases decls.len() - i,
{
    if i < 0 || i >= decls.len() {
        funcs
    } else {
        match decls[i] {
            DeclV::Func(f) => collect_funcs(funcs.insert(f.name, f), decls, i + 1),
            _ => collect_funcs(funcs, decls, i + 1),
        }
    }
}

/// The environment in which a top-level initializer and `main` see the
/// top-level bindings: they are its only scope.
pub open spec fn global_env(st: InterpV) -> EnvV {
    EnvV { scopes: seq![st.globals], out: Seq::empty() }
}

/// The value of a top-level binding: its initializer, evaluated with the
/// top-level bindings that were loaded before it in scope. Their scope is
/// taken back afterwards, so what the initializer moved stays moved.
pub open spec fn eval_global(st: InterpV, b: BindingV, fuel: nat) -> (
    InterpV,
    Result<ValueV, RuntimeErrorV>,
) {
    let (env, r) = eval_expr(st.funcs, global_env(st), b.value, ValueMode::Move, fuel);
    (InterpV { globals: env.scopes[0], out: st.out + env.out, ..st }, r)
}

/// Loading one top-level binding: its value is evaluated and the binding
/// declared, present, among the top-level bindings.
pub open spec fn load_binding(st: InterpV, b: BindingV, fuel: nat) -> (
    InterpV,
    Result<(), RuntimeErrorV>,
) {
    let (s1, r) = eval_global(st, b, fuel);
    match r {
        Err(e) => (s1, Err(e)),
        Ok(v) => (
            InterpV {
                globals: s1.globals.insert(b.name, CellV { mutable: b.mutable, value: Some(v) }),
                ..s1
            },
            Ok(()),
        ),
    }
}

/// The top-level bindings from declaration `i` on, in order.
pub open spec fn load_globals(st: InterpV, decls: Seq<DeclV>, i: int, fuel: nat) -> (
    InterpV,
    Result<(), RuntimeErrorV>,
)
    decreases decls.len() - i,
{
    if i < 0 || i >= decls.len() {
        (st, Ok(()))
    } else {
        match decls[i] {
            DeclV::Global(b) | DeclV::Let(b) => {
                let (s1, r) = load_binding(st, b, fuel);
                match r {
                    Err(e) => (s1, Err(e)),
                    Ok(()) => load_globals(s1, decls, i + 1, fuel),
                }
            },
            _ => load_globals(st, decls, i + 1, fuel),
        }
    }
}

/// Loading a program registers its functions, then evaluates its top-level
/// bindings in order, each with the earlier ones in scope.
pub open spec fn load_program(st: InterpV, decls: Seq<DeclV>, fuel: nat) -> (
    InterpV,
    Result<(), RuntimeErrorV>,
) {
    load_globals(InterpV { funcs: collect_funcs(st.funcs, decls, 0), ..st }, decls, 0, fuel)
}

/// Running `main`: without arguments, in an environment whose only scope
/// holds the top-level bindings. What `main` does to those bindings is not
/// kept; what it prints is.
pub open spec fn run_main(st: InterpV, fuel: nat) -> (InterpV, Result<ValueV, RuntimeErrorV>) {
    if !st.funcs.contains_key("main"@) {
        (st, Err(RuntimeErrorV::UnknownIdent("main"@)))
    } else {
        let (e1, r) = call_function(
            st.funcs,
            global_env(st),
            st.funcs["main"@],
            Seq::empty(),
            fuel,
        );
        (InterpV { out: st.out + e1.out, ..st }, r)
    }
}

} // verus!

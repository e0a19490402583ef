//! The evaluator: runs a checked program and enforces moves as it goes.
//!
//! Every function is proved to compute the rule of the same name in
//! [`crate::eval_rules`] on the models of its arguments.

use crate::arena::Arena;
use crate::ast::{
    exprs_view, field_inits_view, BinaryOp, Block, Decl, Expr, FuncCall, FuncDecl, FuncDeclV,
    Literal, Name, Path, Program, Stmt, UnaryOp,
};
use crate::check_rules::ValueMode;
use crate::eval_rules;
use crate::eval_rules::{CellV, EnvV, InterpV, RuntimeErrorV};
use crate::lexer::lex_spec;
use crate::parse_rules;
use crate::parser::{error_text, Parser};
use crate::scopes::find_scope;
use crate::text::{path_to_string, str_eq};
use crate::value::{
    debug_string, entries_of, fields_get_mut, fields_insert, fields_new, fields_shift_remove,
    index_of, EntryV, Value, ValueV,
};
use vstd::hash_map::StringHashMap;
use vstd::prelude::*;

verus! {

/// How deep calls may nest when nothing else is asked for.
pub const DEFAULT_CALL_LIMIT: usize = 512;

// ---------------------------------------------------------------------------
// Errors
// ---------------------------------------------------------------------------
/// Why a run ended early. A program that passed the check gives none of
/// these but `Type`, for a number that does not fit, a division by zero or
/// calls nested too deep.
#[derive(Debug, PartialEq)]
pub enum RuntimeError {
    UnknownIdent(String),
    Moved(String),
    NotMutable(String),
    FieldNotFound(String),
    Type(String),
}

impl View for RuntimeError {
    type V = RuntimeErrorV;

    open spec fn view(&self) -> RuntimeErrorV {
        match self {
            RuntimeError::UnknownIdent(s) => RuntimeErrorV::UnknownIdent(s@),
            RuntimeError::Moved(s) => RuntimeErrorV::Moved(s@),
            RuntimeError::NotMutable(s) => RuntimeErrorV::NotMutable(s@),
            RuntimeError::FieldNotFound(s) => RuntimeErrorV::FieldNotFound(s@),
            RuntimeError::Type(s) => RuntimeErrorV::Type(s@),
        }
    }
}

/// The model of a result that carries a value.
pub open spec fn value_result(r: Result<Value, RuntimeError>) -> Result<ValueV, RuntimeErrorV> {
    match r {
        Ok(v) => Ok(v@),
        Err(e) => Err(e@),
    }
}

/// The model of a result that carries nothing.
pub open spec fn unit_result(r: Result<(), RuntimeError>) -> Result<(), RuntimeErrorV> {
    match r {
        Ok(()) => Ok(()),
        Err(e) => Err(e@),
    }
}

fn type_error<T>(msg: &str) -> (r: Result<T, RuntimeError>)
    ensures
        r matches Err(e) && e@ == RuntimeErrorV::Type(msg@),
{
    Err(RuntimeError::Type(String::from_str(msg)))
}

// ---------------------------------------------------------------------------
// Environment
// ---------------------------------------------------------------------------
/// One binding at run time: `value` is `None` after a move.
pub struct Cell {
    pub mutable: bool,
    pub value: Option<Value>,
}

/// The model of an optional value.
pub open spec fn opt_value_view(v: Option<Value>) -> Option<ValueV> {
    match v {
        Some(v) => Some(v@),
        None => None,
    }
}

impl View for Cell {
    type V = CellV;

    open spec fn view(&self) -> CellV {
        CellV { mutable: self.mutable, value: opt_value_view(self.value) }
    }
}

impl Clone for Cell {
    fn clone(&self) -> (r: Self)
        ensures
            r@ == self@,
    {
        let value = match &self.value {
            Some(v) => Some(v.clone()),
            None => None,
        };
        Cell { mutable: self.mutable, value }
    }
}

pub open spec fn cells_view(m: Map<Name, Cell>) -> Map<Name, CellV> {
    m.map_values(|c: Cell| c@)
}

pub open spec fn cell_scopes_view(v: Seq<StringHashMap<Cell>>) -> Seq<Map<Name, CellV>> {
    Seq::new(v.len(), |i: int| cells_view(v[i]@))
}

pub proof fn lemma_cells_view_insert(m: Map<Name, Cell>, k: Name, c: Cell)
    ensures
        cells_view(m.insert(k, c)) == cells_view(m).insert(k, c@),
{
    assert(cells_view(m.insert(k, c)) =~= cells_view(m).insert(k, c@));
}

/// The scopes of a run, the arena of its temporaries and what it printed.
pub struct Env {
    scopes: Vec<StringHashMap<Cell>>,
    arena: Arena,
    out: String,
}

impl View for Env {
    type V = EnvV;

    closed spec fn view(&self) -> EnvV {
        EnvV { scopes: cell_scopes_view(self.scopes@), out: self.out@ }
    }
}

/// Takes the field `field` out of a record value.
fn extract_field(val: Value, field: &str) -> (r: Result<Value, RuntimeError>)
    ensures
        value_result(r) == eval_rules::extract_field(val@, field@),
{
    match val {
        Value::Record(m) => {
            let mut m = m;
            match fields_shift_remove(&mut m, field) {
                Some(v) => Ok(v),
                None => Err(RuntimeError::FieldNotFound(String::from_str(field))),
            }
        },
        _ => type_error("field access on non-record"),
    }
}

/// Follows the segments of `path` from index `start` on into `val`.
#[verifier::loop_isolation(false)]
fn extract_fields(val: Value, path: &Path, start: usize) -> (r: Result<Value, RuntimeError>)
    requires
        start <= path.0.len(),
    ensures
        value_result(r) == eval_rules::extract_fields(val@, path@.skip(start as int)),
{
    let mut cur = val;
    let mut i: usize = start;
    while i < path.0.len()
        invariant
            start <= i <= path.0.len(),
            eval_rules::extract_fields(val@, path@.skip(start as int))
                == eval_rules::extract_fields(cur@, path@.skip(i as int)),
        decreases path.0.len() - i,
    {
        proof {
            assert(path@.skip(i as int).drop_first() =~= path@.skip(i + 1));
            assert(path@.skip(i as int)[0] == path.0@[i as int]@);
        }
        cur = match extract_field(cur, path.0[i].0.as_str()) {
            Ok(v) => v,
            Err(e) => {
                return Err(e);
            },
        };
        i += 1;
    }
    Ok(cur)
}

/// The index that `index_of` gives is in range and holds the key.
pub proof fn lemma_index_of_found(entries: Seq<EntryV>, key: Name)
    ensures
        index_of(entries, key) matches Some(i) ==> 0 <= i < entries.len() && entries[i].key == key,
    decreases entries.len(),
{
    if entries.len() > 0 && entries[0].key != key {
        lemma_index_of_found(entries.drop_first(), key);
    }
}

/// Replaces what lies at the end of `path`, from segment `start` on, inside
/// `target`. On an error `target` stays as it was.
fn set_field(target: &mut Value, path: &Path, start: usize, value: Value) -> (r: Result<
    (),
    RuntimeError,
>)
    requires
        start <= path.0.len(),
    ensures
        match eval_rules::set_field(old(target)@, path@.skip(start as int), value@) {
            Ok(v) => r is Ok && final(target)@ == v,
            Err(e) => r matches Err(x) && x@ == e && final(target)@ == old(target)@,
        },
    decreases path.0.len() - start,
{
    if start >= path.0.len() {
        *target = value;
        return Ok(());
    }
    proof {
        assert(path@.skip(start as int).drop_first() =~= path@.skip(start + 1));
        assert(path@.skip(start as int)[0] == path.0@[start as int]@);
    }
    match target {
        Value::Record(m) => {
            let key = &path.0[start];
            let ghost entries = entries_of(*m);
            proof {
                lemma_index_of_found(entries, key@);
            }
            match fields_get_mut(m, key.0.as_str()) {
                None => Err(RuntimeError::FieldNotFound(key.0.clone())),
                Some(slot) => {
                    let r = set_field(slot, path, start + 1, value);
                    proof {
                        let i = index_of(entries, key@)->0;
                        if r is Err {
                            assert(entries.update(i, entries[i]) =~= entries);
                        }
                    }
                    r
                },
            }
        },
        _ => type_error("assignment into non-record field"),
    }
}

impl Env {
    fn new_with_arena(cap: usize) -> (r: Self)
        ensures
            r@ == eval_rules::empty_env(),
    {
        let r = Env { scopes: Vec::new(), arena: Arena::with_capacity(cap), out: String::new() };
        assert(r@.scopes =~= Seq::<Map<Name, CellV>>::empty());
        r
    }

    fn push_scope(&mut self)
        ensures
            final(self)@ == eval_rules::push_scope(old(self)@),
    {
        let scope: StringHashMap<Cell> = StringHashMap::new();
        proof {
            assert(cells_view(scope@) =~= Map::<Name, CellV>::empty());
        }
        self.scopes.push(scope);
        proof {
            assert(cell_scopes_view(self.scopes@) =~= cell_scopes_view(old(self).scopes@).push(
                Map::empty(),
            ));
        }
    }

    /// How much of the arena is handed out.
    pub closed spec fn arena_used(&self) -> nat {
        self.arena.used()
    }

    /// Closes the innermost scope; the storage of its temporaries is given
    /// back with it.
    fn pop_scope(&mut self)
        ensures
            final(self)@ == eval_rules::pop_scope(old(self)@),
            final(self).arena_used() == 0,
    {
        let _ = self.scopes.pop();
        self.arena.reset();
        proof {
            if old(self).scopes@.len() > 0 {
                assert(cell_scopes_view(self.scopes@) =~= cell_scopes_view(
                    old(self).scopes@,
                ).drop_last());
            }
        }
    }

    fn insert_binding(&mut self, name: String, binding: Cell)
        ensures
            final(self)@ == eval_rules::insert_cell(old(self)@, name@, binding@),
    {
        let n = self.scopes.len();
        if n > 0 {
            proof {
                lemma_cells_view_insert(self.scopes@[n - 1]@, name@, binding);
            }
            self.scopes[n - 1].insert(name, binding);
            proof {
                assert(cell_scopes_view(self.scopes@) =~= cell_scopes_view(
                    old(self).scopes@,
                ).update(n - 1, cell_scopes_view(old(self).scopes@).last().insert(name@, binding@)));
            }
        } else {
            let mut scope: StringHashMap<Cell> = StringHashMap::new();
            proof {
                assert(cells_view(scope@) =~= Map::<Name, CellV>::empty());
                lemma_cells_view_insert(scope@, name@, binding);
            }
            scope.insert(name, binding);
            self.scopes.push(scope);
            proof {
                assert(cell_scopes_view(self.scopes@) =~= seq![
                    Map::<Name, CellV>::empty().insert(name@, binding@),
                ]);
            }
        }
    }

    /// Replaces the cell of `name` in scope `d`.
    fn set_cell(&mut self, d: usize, name: &str, cell: Cell)
        requires
            d < old(self).scopes.len(),
        ensures
            final(self)@ == eval_rules::set_cell(old(self)@, d as int, name@, cell@),
    {
        proof {
            lemma_cells_view_insert(self.scopes@[d as int]@, name@, cell);
        }
        self.scopes[d].insert(String::from_str(name), cell);
        proof {
            let before = cell_scopes_view(old(self).scopes@);
            assert(cell_scopes_view(self.scopes@) =~= before.update(
                d as int,
                before[d as int].insert(name@, cell@),
            ));
        }
    }

    /// The innermost scope that declares `name`.
    fn find_scope(&self, name: &str) -> (r: Option<usize>)
        ensures
            match r {
                Some(d) => d < self.scopes.len() && self.scopes@[d as int]@.contains_key(name@)
                    && find_scope(self@.scopes, name@) == Some(d as int),
                None => find_scope(self@.scopes, name@) is None,
            },
    {
        let mut idx: usize = self.scopes.len();
        proof {
            assert(self@.scopes.take(idx as int) =~= self@.scopes);
        }
        while idx > 0
            invariant
                idx <= self.scopes.len(),
                find_scope(self@.scopes, name@) == find_scope(
                    self@.scopes.take(idx as int),
                    name@,
                ),
            decreases idx,
        {
            proof {
                assert(self@.scopes.take(idx as int).drop_last() =~= self@.scopes.take(idx - 1));
            }
            idx -= 1;
            if self.scopes[idx].contains_key(name) {
                return Some(idx);
            }
        }
        None
    }

    /// Reads a path in the given mode.
    fn resolve_path(&mut self, path: &Path, mode: ValueMode) -> (r: Result<Value, RuntimeError>)
        ensures
            (final(self)@, value_result(r)) == eval_rules::read_value(old(self)@, path@, mode),
    {
        if path.0.len() == 0 {
            return Err(RuntimeError::UnknownIdent(String::new()));
        }
        let head = &path.0[0];
        let d = match self.find_scope(head.0.as_str()) {
            Some(d) => d,
            None => {
                return Err(RuntimeError::UnknownIdent(head.0.clone()));
            },
        };
        let cell = match self.scopes[d].get(head.0.as_str()) {
            Some(c) => c.clone(),
            None => {
                return Err(RuntimeError::UnknownIdent(head.0.clone()));
            },
        };
        let val = match cell.value {
            Some(v) => v,
            None => {
                return Err(RuntimeError::Moved(head.0.clone()));
            },
        };
        match mode {
            ValueMode::Move => {
                self.set_cell(d, head.0.as_str(), Cell { mutable: cell.mutable, value: None });
            },
            ValueMode::Copy | ValueMode::Borrow => {},
        }
        proof {
            assert(path@.drop_first() =~= path@.skip(1));
        }
        extract_fields(val, path, 1)
    }

    /// Assigns to a path.
    fn assign_path(&mut self, path: &Path, value: Value) -> (r: Result<(), RuntimeError>)
        ensures
            (final(self)@, unit_result(r)) == eval_rules::assign_path(old(self)@, path@, value@),
    {
        if path.0.len() == 0 {
            return Err(RuntimeError::UnknownIdent(String::new()));
        }
        let head = &path.0[0];
        let d = match self.find_scope(head.0.as_str()) {
            Some(d) => d,
            None => {
                return Err(RuntimeError::UnknownIdent(head.0.clone()));
            },
        };
        let cell = match self.scopes[d].get(head.0.as_str()) {
            Some(c) => c.clone(),
            None => {
                return Err(RuntimeError::UnknownIdent(head.0.clone()));
            },
        };
        if !cell.mutable {
            return Err(RuntimeError::NotMutable(head.0.clone()));
        }
        if path.0.len() == 1 {
            self.set_cell(d, head.0.as_str(), Cell { mutable: cell.mutable, value: Some(value) });
            return Ok(());
        }
        let mut target = match cell.value {
            Some(v) => v,
            None => {
                return Err(RuntimeError::Moved(head.0.clone()));
            },
        };
        proof {
            assert(path@.drop_first() =~= path@.skip(1));
        }
        match set_field(&mut target, path, 1, value) {
            Err(e) => Err(e),
            Ok(()) => {
                self.set_cell(
                    d,
                    head.0.as_str(),
                    Cell { mutable: cell.mutable, value: Some(target) },
                );
                Ok(())
            },
        }
    }

    /// Adds text to what was printed.
    fn print(&mut self, text: &str)
        ensures
            final(self)@ == (EnvV { out: old(self)@.out + text@, ..old(self)@ }),
    {
        self.out.append(text);
    }
}

// ---------------------------------------------------------------------------
// Interpreter
// ---------------------------------------------------------------------------
/// Interpreter with simple block-scoped environment and bump arena per
/// top-level run.
pub struct Interpreter {
    globals: StringHashMap<Cell>,
    names: Vec<String>,
    funcs: StringHashMap<FuncDecl>,
    arena_cap: usize,
    call_limit: usize,
    out: String,
}

/// Whether `name` is among the first `n` of the names.
pub open spec fn listed(names: Seq<String>, n: int, name: Name) -> bool {
    exists|j: int| 0 <= j < n && j < names.len() && (#[trigger] names[j])@ == name
}

pub open spec fn decls_view(m: Map<Name, FuncDecl>) -> Map<Name, FuncDeclV> {
    m.map_values(|f: FuncDecl| f@)
}

pub proof fn lemma_decls_view_insert(m: Map<Name, FuncDecl>, k: Name, f: FuncDecl)
    ensures
        decls_view(m.insert(k, f)) == decls_view(m).insert(k, f@),
{
    assert(decls_view(m.insert(k, f)) =~= decls_view(m).insert(k, f@));
}

impl View for Interpreter {
    type V = InterpV;

    closed spec fn view(&self) -> InterpV {
        InterpV {
            globals: cells_view(self.globals@),
            funcs: decls_view(self.funcs@),
            out: self.out@,
        }
    }
}

/// The value of a literal.
fn literal_value(l: &Literal) -> (v: Value)
    ensures
        v@ == eval_rules::literal_value(l@),
{
    match l {
        Literal::Int(v) => Value::Int(*v),
        Literal::Bool(b) => Value::Bool(*b),
        Literal::Str(s) => Value::Str(s.clone()),
        Literal::Unit => Value::Unit,
    }
}

fn int_result(v: Option<i64>, Ghost(i): Ghost<int>) -> (r: Result<Value, RuntimeError>)
    requires
        v == (if eval_rules::fits(i) {
            Some(i as i64)
        } else {
            None
        }),
    ensures
        value_result(r) == eval_rules::int_result(i),
{
    match v {
        Some(n) => Ok(Value::Int(n)),
        None => type_error("integer overflow"),
    }
}

/// The result of a binary operator on two values.
pub fn eval_binary(l: &Value, r: &Value, op: BinaryOp) -> (res: Result<Value, RuntimeError>)
    ensures
        value_result(res) == eval_rules::eval_binary(l@, r@, op),
{
    match op {
        BinaryOp::Add => match (l, r) {
            (Value::Int(a), Value::Int(b)) => int_result(a.checked_add(*b), Ghost(*a + *b)),
            (Value::Str(a), Value::Str(b)) => {
                let mut s = a.clone();
                s.append(b.as_str());
                Ok(Value::Str(s))
            },
            _ => type_error("invalid operands for +"),
        },
        BinaryOp::Sub => match (l, r) {
            (Value::Int(a), Value::Int(b)) => int_result(a.checked_sub(*b), Ghost(*a - *b)),
            _ => type_error("invalid operands for -"),
        },
        BinaryOp::Mul => match (l, r) {
            (Value::Int(a), Value::Int(b)) => int_result(a.checked_mul(*b), Ghost(*a * *b)),
            _ => type_error("invalid operands for *"),
        },
        BinaryOp::Div => match (l, r) {
            (Value::Int(a), Value::Int(b)) => {
                if *b == 0 {
                    type_error("division by zero")
                } else {
                    int_result(
                        a.checked_div(*b),
                        Ghost(eval_rules::div_toward_zero(*a as int, *b as int)),
                    )
                }
            },
            _ => type_error("invalid operands for /"),
        },
        BinaryOp::Lt => match (l, r) {
            (Value::Int(a), Value::Int(b)) => Ok(Value::Bool(*a < *b)),
            _ => type_error("invalid operands for <"),
        },
        BinaryOp::Eq => Ok(Value::Bool(l == r)),
        BinaryOp::And => match (l, r) {
            (Value::Bool(a), Value::Bool(b)) => Ok(Value::Bool(*a && *b)),
            _ => type_error("invalid operands for &&"),
        },
        BinaryOp::Or => match (l, r) {
            (Value::Bool(a), Value::Bool(b)) => Ok(Value::Bool(*a || *b)),
            _ => type_error("invalid operands for ||"),
        },
    }
}

/// The result of a unary operator on a value.
pub fn eval_unary(op: UnaryOp, v: &Value) -> (res: Result<Value, RuntimeError>)
    ensures
        value_result(res) == eval_rules::eval_unary(op, v@),
{
    match (op, v) {
        (UnaryOp::Neg, Value::Int(i)) => int_result(0i64.checked_sub(*i), Ghost(-*i)),
        (UnaryOp::Not, Value::Bool(b)) => Ok(Value::Bool(!*b)),
        _ => type_error("invalid unary operand"),
    }
}

impl Interpreter {
    /// What holds of an interpreter between calls: it keeps the names of
    /// its top-level bindings.
    pub closed spec fn wf(&self) -> bool {
        forall|k: Name|
            self.globals@.contains_key(k) ==> listed(self.names@, self.names@.len() as int, k)
    }

    /// How deep calls may nest.
    pub closed spec fn call_limit(&self) -> nat {
        self.call_limit as nat
    }

    /// The size in bytes of the arena of each run.
    pub closed spec fn arena_cap(&self) -> nat {
        self.arena_cap as nat
    }

    /// An interpreter without functions or bindings. `arena_cap` is the size
    /// in bytes of the arena of each run.
    pub fn new(arena_cap: usize) -> (r: Self)
        ensures
            r.wf(),
            r@ == (InterpV { globals: Map::empty(), funcs: Map::empty(), out: Seq::empty() }),
            r.call_limit() == DEFAULT_CALL_LIMIT,
            r.arena_cap() == arena_cap,
    {
        let r = Interpreter {
            globals: StringHashMap::new(),
            names: Vec::new(),
            funcs: StringHashMap::new(),
            arena_cap,
            call_limit: DEFAULT_CALL_LIMIT,
            out: String::new(),
        };
        assert(r@.funcs =~= Map::<Name, FuncDeclV>::empty());
        assert(r@.globals =~= Map::<Name, CellV>::empty());
        r
    }

    /// An interpreter with the program of `src` loaded. An error of the
    /// lexer or the parser is reported as a `Type` error with its message.
    pub fn from_source(src: &str) -> (r: Result<Self, RuntimeError>)
        ensures
            value_or_error(r) == source_spec(src@),
            r matches Ok(i) ==> i.wf() && i.call_limit() == DEFAULT_CALL_LIMIT,
    {
        let mut parser = match Parser::new(src) {
            Ok(p) => p,
            Err(e) => {
                return Err(RuntimeError::Type(e.to_string()));
            },
        };
        let program = match parser.parse_program() {
            Ok(p) => p,
            Err(e) => {
                return Err(RuntimeError::Type(e.to_string()));
            },
        };
        let mut interp = Interpreter::new(1024 * 1024);
        match interp.load_program(&program) {
            Ok(()) => Ok(interp),
            Err(e) => Err(e),
        }
    }

    /// Sets how deep calls may nest.
    pub fn set_call_limit(&mut self, limit: usize)
        ensures
            final(self)@ == old(self)@,
            final(self).wf() == old(self).wf(),
            final(self).arena_cap() == old(self).arena_cap(),
            final(self).call_limit() == limit,
    {
        self.call_limit = limit;
    }

    /// What the program has printed so far.
    pub fn output(&self) -> (r: &str)
        ensures
            r@ == self@.out,
    {
        self.out.as_str()
    }

    /// Loads one top-level binding.
    #[verifier::rlimit(40)]
    fn load_binding(&mut self, b: &crate::ast::Binding) -> (r: Result<(), RuntimeError>)
        requires
            old(self).wf(),
        ensures
            final(self).wf(),
            final(self).call_limit() == old(self).call_limit(),
            final(self).arena_cap() == old(self).arena_cap(),
            (final(self)@, unit_result(r)) == eval_rules::load_binding(
                old(self)@,
                b@,
                old(self).call_limit(),
            ),
    {
        let fuel = self.call_limit;
        let ghost st = self@;
        let ghost names = self.names@;
        let mut env = Env::new_with_arena(self.arena_cap);
        // the top-level bindings so far are the scope of the initializer
        let mut scope: StringHashMap<Cell> = StringHashMap::new();
        core::mem::swap(&mut scope, &mut self.globals);
        let ghost before = scope@;
        env.scopes.push(scope);
        let ghost e0 = env@;
        proof {
            assert(e0.scopes =~= seq![st.globals]);
            assert(e0 == eval_rules::global_env(st));
            crate::depth_laws::lemma_eval_expr_keeps_depth(
                st.funcs,
                e0,
                b.value@,
                ValueMode::Move,
                fuel as nat,
            );
            crate::names_laws::lemma_eval_keeps_names(
                st.funcs,
                e0,
                b.value@,
                ValueMode::Move,
                fuel as nat,
                1,
            );
        }
        let r = self.eval_expr(&b.value, &mut env, ValueMode::Move, fuel);
        let ghost e1 = env@;
        proof {
            assert(e1.scopes.len() == 1);
            assert(e1.scopes[0] == cells_view(env.scopes@[0]@));
            assert(e1.scopes[0].dom() == e0.scopes[0].dom());
            assert(e0.scopes[0] == cells_view(before));
        }
        // and are taken back with what the initializer moved
        match env.scopes.pop() {
            Some(scope) => {
                self.globals = scope;
            },
            None => {},
        }
        proof {
            assert(cells_view(self.globals@) == e1.scopes[0]);
            assert(cells_view(self.globals@).dom() =~= self.globals@.dom());
            assert(cells_view(before).dom() =~= before.dom());
            assert(self.globals@.dom() == before.dom());
        }
        self.out.append(env.out.as_str());
        match r {
            Err(e) => Err(e),
            Ok(val) => {
                let cell = Cell { mutable: b.mutable, value: Some(val) };
                proof {
                    lemma_cells_view_insert(self.globals@, b.name@, cell);
                }
                self.globals.insert(b.name.0.clone(), cell);
                self.names.push(b.name.0.clone());
                proof {
                    let last = self.names@.len() - 1;
                    assert(self.names@[last]@ == b.name@);
                    assert forall|k: Name| self.globals@.contains_key(k) implies listed(
                        self.names@,
                        self.names@.len() as int,
                        k,
                    ) by {
                        if k != b.name@ {
                            assert(before.contains_key(k));
                            let j = choose|j: int|
                                0 <= j < names.len() && (#[trigger] names[j])@ == k;
                            assert(self.names@[j] == names[j]);
                        }
                    }
                }
                Ok(())
            },
        }
    }

    /// Registers the functions of a program, then evaluates its top-level
    /// bindings in order, each with the earlier ones in scope.
    #[verifier::loop_isolation(false)]
    #[verifier::rlimit(40)]
    pub fn load_program(&mut self, program: &Program) -> (r: Result<(), RuntimeError>)
        requires
            old(self).wf(),
        ensures
            final(self).wf(),
            final(self).call_limit() == old(self).call_limit(),
            final(self).arena_cap() == old(self).arena_cap(),
            (final(self)@, unit_result(r)) == eval_rules::load_program(
                old(self)@,
                program@,
                old(self).call_limit(),
            ),
    {
        let ghost dv = program@;
        let mut i: usize = 0;
        while i < program.decls.len()
            invariant
                i <= program.decls.len(),
                self.globals == old(self).globals,
                self.names == old(self).names,
                self.out == old(self).out,
                self.call_limit == old(self).call_limit,
                self.arena_cap == old(self).arena_cap,
                eval_rules::collect_funcs(old(self)@.funcs, dv, 0) == eval_rules::collect_funcs(
                    self@.funcs,
                    dv,
                    i as int,
                ),
            decreases program.decls.len() - i,
        {
            match &program.decls[i] {
                Decl::Func(f) => {
                    let copy = f.clone();
                    proof {
                        lemma_decls_view_insert(self.funcs@, f.name@, copy);
                    }
                    self.funcs.insert(f.name.0.clone(), copy);
                },
                _ => {},
            }
            i += 1;
        }
        let ghost s1 = self@;
        let ghost fuel = self.call_limit();
        let mut i: usize = 0;
        while i < program.decls.len()
            invariant
                i <= program.decls.len(),
                self.wf(),
                self.call_limit() == fuel,
                self.arena_cap() == old(self).arena_cap(),
                eval_rules::load_globals(s1, dv, 0, fuel) == eval_rules::load_globals(
                    self@,
                    dv,
                    i as int,
                    fuel,
                ),
            decreases program.decls.len() - i,
        {
            match &program.decls[i] {
                Decl::Global(b) => {
                    match self.load_binding(b) {
                        Ok(()) => {},
                        Err(e) => {
                            return Err(e);
                        },
                    }
                },
                Decl::Let(b) => {
                    match self.load_binding(b) {
                        Ok(()) => {},
                        Err(e) => {
                            return Err(e);
                        },
                    }
                },
                _ => {},
            }
            i += 1;
        }
        Ok(())
    }

    /// A copy of the top-level bindings.
    fn copy_globals(&self) -> (r: StringHashMap<Cell>)
        requires
            self.wf(),
        ensures
            cells_view(r@) == self@.globals,
    {
        let mut scope: StringHashMap<Cell> = StringHashMap::new();
        let mut i: usize = 0;
        while i < self.names.len()
            invariant
                i <= self.names.len(),
                forall|k: Name|
                    scope@.contains_key(k) <==> (self.globals@.contains_key(k) && listed(
                        self.names@,
                        i as int,
                        k,
                    )),
                forall|k: Name| scope@.contains_key(k) ==> scope@[k]@ == self.globals@[k]@,
            decreases self.names.len() - i,
        {
            let name = &self.names[i];
            let ghost before = scope@;
            match self.globals.get(name.as_str()) {
                Some(cell) => {
                    scope.insert(name.clone(), cell.clone());
                },
                None => {},
            }
            proof {
                assert forall|k: Name|
                    scope@.contains_key(k) <==> (self.globals@.contains_key(k) && listed(
                        self.names@,
                        i + 1,
                        k,
                    )) by {
                    if listed(self.names@, i + 1, k) && !listed(self.names@, i as int, k) {
                        let j = choose|j: int|
                            0 <= j < i + 1 && j < self.names@.len() && (
                            #[trigger] self.names@[j])@ == k;
                        assert(j == i);
                    }
                    if listed(self.names@, i as int, k) {
                        let j = choose|j: int|
                            0 <= j < i && j < self.names@.len() && (#[trigger] self.names@[j])@
                                == k;
                        assert(0 <= j < i + 1);
                    }
                    if k == name@ {
                        assert(self.names@[i as int]@ == k);
                    }
                }
            }
            i += 1;
        }
        proof {
            assert(cells_view(scope@) =~= cells_view(self.globals@));
        }
        scope
    }

    /// Evaluate `main()` and return its result value.
    pub fn run_main(&mut self) -> (r: Result<Value, RuntimeError>)
        requires
            old(self).wf(),
        ensures
            final(self).wf(),
            final(self).call_limit() == old(self).call_limit(),
            final(self).arena_cap() == old(self).arena_cap(),
            (final(self)@, value_result(r)) == eval_rules::run_main(
                old(self)@,
                old(self).call_limit(),
            ),
    {
        let mut env = Env::new_with_arena(self.arena_cap);
        let r = match self.funcs.get("main") {
            None => {
                return Err(RuntimeError::UnknownIdent(String::from_str("main")));
            },
            Some(main_fn) => {
                let scope = self.copy_globals();
                env.scopes.push(scope);
                proof {
                    assert(env@.scopes =~= seq![self@.globals]);
                }
                self.call_function(main_fn, Vec::new(), &mut env, self.call_limit)
            },
        };
        self.out.append(env.out.as_str());
        r
    }

    /// Runs a function on argument values.
    #[verifier::loop_isolation(false)]
    #[verifier::rlimit(40)]
    fn call_function(&self, func: &FuncDecl, args: Vec<Value>, env: &mut Env, fuel: usize) -> (r:
        Result<Value, RuntimeError>)
        ensures
            (final(env)@, value_result(r)) == eval_rules::call_function(
                self@.funcs,
                old(env)@,
                func@,
                values_view(args@),
                fuel as nat,
            ),
        decreases fuel, func.body, 2nat,
    {
        if func.params.len() != args.len() {
            return type_error("arity mismatch");
        }
        env.push_scope();
        let ghost e0 = env@;
        let ghost pv = func@.params;
        let ghost av = values_view(args@);
        let mut i: usize = 0;
        while i < func.params.len()
            invariant
                i <= func.params.len(),
                eval_rules::bind_args(e0, pv, av, 0) == eval_rules::bind_args(
                    env@,
                    pv,
                    av,
                    i as int,
                ),
            decreases func.params.len() - i,
        {
            let param = &func.params[i];
            env.insert_binding(
                param.name.0.clone(),
                Cell { mutable: param.mutable, value: Some(args[i].clone()) },
            );
            i += 1;
        }
        let result = match &func.body {
            Expr::Block(b) => self.eval_block(b, env, fuel),
            other => self.eval_expr(other, env, ValueMode::Move, fuel),
        };
        env.pop_scope();
        result
    }

    fn eval_block(&self, block: &Block, env: &mut Env, fuel: usize) -> (r: Result<
        Value,
        RuntimeError,
    >)
        ensures
            (final(env)@, value_result(r)) == eval_rules::eval_block(
                self@.funcs,
                old(env)@,
                block@,
                fuel as nat,
            ),
        decreases fuel, block, 1nat,
    {
        env.push_scope();
        let r = self.block_body(block, env, fuel);
        env.pop_scope();
        r
    }

    #[verifier::loop_isolation(false)]
    fn block_body(&self, block: &Block, env: &mut Env, fuel: usize) -> (r: Result<
        Value,
        RuntimeError,
    >)
        ensures
            (final(env)@, value_result(r)) == eval_rules::block_body(
                self@.funcs,
                old(env)@,
                block@,
                fuel as nat,
            ),
        decreases fuel, block, 0nat,
    {
        let ghost sv = block@.stmts;
        let mut i: usize = 0;
        while i < block.stmts.len()
            invariant
                i <= block.stmts.len(),
                eval_rules::eval_stmts(self@.funcs, old(env)@, sv, 0, fuel as nat)
                    == eval_rules::eval_stmts(self@.funcs, env@, sv, i as int, fuel as nat),
            decreases block.stmts.len() - i,
        {
            match self.eval_stmt(&block.stmts[i], env, fuel) {
                Ok(()) => {},
                Err(e) => {
                    return Err(e);
                },
            }
            i += 1;
        }
        match &block.tail {
            Some(expr) => self.eval_expr(expr, env, ValueMode::Move, fuel),
            None => Ok(Value::Unit),
        }
    }

    fn eval_stmt(&self, stmt: &Stmt, env: &mut Env, fuel: usize) -> (r: Result<(), RuntimeError>)
        ensures
            (final(env)@, unit_result(r)) == eval_rules::eval_stmt(
                self@.funcs,
                old(env)@,
                stmt@,
                fuel as nat,
            ),
        decreases fuel, stmt, 0nat,
    {
        match stmt {
            Stmt::Binding(b) => {
                let val = match self.eval_expr(&b.value, env, ValueMode::Move, fuel) {
                    Ok(v) => v,
                    Err(e) => {
                        return Err(e);
                    },
                };
                env.insert_binding(b.name.0.clone(), Cell { mutable: b.mutable, value: Some(val) });
                Ok(())
            },
            Stmt::Assign(a) => {
                let val = match self.eval_expr(&a.value, env, ValueMode::Move, fuel) {
                    Ok(v) => v,
                    Err(e) => {
                        return Err(e);
                    },
                };
                env.assign_path(&a.target, val)
            },
            Stmt::Expr(e) => match self.eval_expr(e, env, ValueMode::Move, fuel) {
                Ok(_) => Ok(()),
                Err(e) => Err(e),
            },
        }
    }

    #[verifier::loop_isolation(false)]
    #[verifier::rlimit(40)]
    fn eval_expr(&self, expr: &Expr, env: &mut Env, mode: ValueMode, fuel: usize) -> (r: Result<
        Value,
        RuntimeError,
    >)
        ensures
            (final(env)@, value_result(r)) == eval_rules::eval_expr(
                self@.funcs,
                old(env)@,
                expr@,
                mode,
                fuel as nat,
            ),
        decreases fuel, expr, 0nat,
    {
        match expr {
            Expr::Literal(l) => Ok(literal_value(l)),
            Expr::Path(p) => env.resolve_path(p, mode),
            Expr::Copy(inner) => self.eval_expr(inner, env, ValueMode::Copy, fuel),
            Expr::Ref(inner) => self.eval_expr(inner, env, ValueMode::Borrow, fuel),
            Expr::FuncCall(fc) => {
                proof {
                    assert(expr@->FuncCall_args =~= exprs_view(fc.args@));
                }
                self.eval_call(fc, env, fuel)
            },
            Expr::If(ife) => {
                let cond = match self.eval_expr(&ife.cond, env, ValueMode::Move, fuel) {
                    Ok(v) => v,
                    Err(e) => {
                        return Err(e);
                    },
                };
                match cond {
                    Value::Bool(true) => self.eval_expr(
                        &ife.then_branch,
                        env,
                        ValueMode::Move,
                        fuel,
                    ),
                    Value::Bool(false) => self.eval_expr(
                        &ife.else_branch,
                        env,
                        ValueMode::Move,
                        fuel,
                    ),
                    _ => type_error("if condition must be bool"),
                }
            },
            Expr::Block(b) => self.eval_block(b, env, fuel),
            Expr::RecordLit(rl) => {
                let ghost fv = field_inits_view(rl.fields@);
                proof {
                    assert(expr@->RecordLit_0 =~= fv);
                }
                let mut map = fields_new();
                let mut i: usize = 0;
                while i < rl.fields.len()
                    invariant
                        i <= rl.fields.len(),
                        eval_rules::eval_expr(self@.funcs, old(env)@, expr@, mode, fuel as nat)
                            == eval_rules::eval_record(
                            self@.funcs,
                            env@,
                            fv,
                            i as int,
                            entries_of(map),
                            fuel as nat,
                        ),
                    decreases rl.fields.len() - i,
                {
                    let f = &rl.fields[i];
                    let v = match self.eval_expr(&f.value, env, ValueMode::Move, fuel) {
                        Ok(v) => v,
                        Err(e) => {
                            return Err(e);
                        },
                    };
                    fields_insert(&mut map, f.name.0.clone(), v);
                    i += 1;
                }
                Ok(Value::Record(map))
            },
            Expr::Unary(u) => {
                let v = match self.eval_expr(&u.expr, env, ValueMode::Move, fuel) {
                    Ok(v) => v,
                    Err(e) => {
                        return Err(e);
                    },
                };
                eval_unary(u.op, &v)
            },
            Expr::Binary(b) => {
                let l = match self.eval_expr(&b.left, env, ValueMode::Move, fuel) {
                    Ok(v) => v,
                    Err(e) => {
                        return Err(e);
                    },
                };
                let r = match self.eval_expr(&b.right, env, ValueMode::Move, fuel) {
                    Ok(v) => v,
                    Err(e) => {
                        return Err(e);
                    },
                };
                eval_binary(&l, &r, b.op)
            },
        }
    }

    /// A call: of a function of the program, or else of `print` or
    /// `println`.
    #[verifier::loop_isolation(false)]
    #[verifier::rlimit(40)]
    fn eval_call(&self, call: &FuncCall, env: &mut Env, fuel: usize) -> (r: Result<
        Value,
        RuntimeError,
    >)
        ensures
            (final(env)@, value_result(r)) == eval_rules::eval_call(
                self@.funcs,
                old(env)@,
                call.callee@,
                exprs_view(call.args@),
                fuel as nat,
            ),
        decreases fuel, call, 0nat,
    {
        let name = path_to_string(&call.callee);
        let ghost av = exprs_view(call.args@);
        match self.funcs.get(name.as_str()) {
            Some(func) => {
                let mut args: Vec<Value> = Vec::new();
                let mut i: usize = 0;
                proof {
                    assert(values_view(args@) =~= Seq::<ValueV>::empty());
                }
                while i < call.args.len()
                    invariant
                        i <= call.args.len(),
                        eval_rules::eval_args(
                            self@.funcs,
                            old(env)@,
                            av,
                            0,
                            Seq::empty(),
                            fuel as nat,
                        ) == eval_rules::eval_args(
                            self@.funcs,
                            env@,
                            av,
                            i as int,
                            values_view(args@),
                            fuel as nat,
                        ),
                    decreases call.args.len() - i,
                {
                    let v = match self.eval_expr(&call.args[i], env, ValueMode::Move, fuel) {
                        Ok(v) => v,
                        Err(e) => {
                            return Err(e);
                        },
                    };
                    proof {
                        assert(values_view(args@.push(v)) =~= values_view(args@).push(v@));
                    }
                    args.push(v);
                    i += 1;
                }
                if fuel == 0 {
                    return type_error("call depth exceeded");
                }
                self.call_function(func, args, env, fuel - 1)
            },
            None => {
                let is_print = str_eq(name.as_str(), "print");
                if is_print || str_eq(name.as_str(), "println") {
                    if call.args.len() != 1 {
                        return type_error("print/println expects one argument");
                    }
                    let val = match self.eval_expr(&call.args[0], env, ValueMode::Move, fuel) {
                        Ok(v) => v,
                        Err(e) => {
                            return Err(e);
                        },
                    };
                    let s = match val {
                        Value::Str(s) => s,
                        other => debug_string(&other),
                    };
                    let mut line = s.clone();
                    if !is_print {
                        proof {
                            reveal_strlit("\n");
                            assert(s@ + "\n"@ =~= s@.push('\n'));
                        }
                        line.append("\n");
                    }
                    env.print(line.as_str());
                    Ok(Value::Str(s))
                } else {
                    Err(RuntimeError::UnknownIdent(name))
                }
            },
        }
    }
}

/// The model of a result that carries an interpreter.
pub open spec fn value_or_error(r: Result<Interpreter, RuntimeError>) -> Result<
    InterpV,
    RuntimeErrorV,
> {
    match r {
        Ok(i) => Ok(i@),
        Err(e) => Err(e@),
    }
}

/// What loading the program of a text into a new interpreter gives.
pub open spec fn source_spec(src: Seq<char>) -> Result<InterpV, RuntimeErrorV> {
    match lex_spec(src) {
        Err(e) => Err(RuntimeErrorV::Type(error_text(parse_rules::lex_error(e)))),
        Ok(ts) => match parse_rules::parse_program(ts, 0) {
            Err(e) => Err(RuntimeErrorV::Type(error_text(e))),
            Ok((decls, _)) => {
                let fresh = InterpV { globals: Map::empty(), funcs: Map::empty(), out: Seq::empty() };
                let (st, r) = eval_rules::load_program(fresh, decls, DEFAULT_CALL_LIMIT as nat);
                match r {
                    Ok(()) => Ok(st),
                    Err(e) => Err(e),
                }
            },
        },
    }
}

/// The models of a list of values.
pub open spec fn values_view(vs: Seq<Value>) -> Seq<ValueV> {
    Seq::new(vs.len(), |i: int| vs[i]@)
}

} // verus!

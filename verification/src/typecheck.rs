//! The static checker: types, moves, borrows and escapes.
//!
//! Every method is proved to compute the rule of the same name in
//! [`crate::check_rules`] on the checker's model.

use crate::ast::{
    clone_opt_type, clone_params, exprs_view, field_inits_view, named, opt_type_view,
    params_view, same_type, type_contains_ref, Assign, BinaryOp, Binding, Block, Decl,
    Expr, FieldType, FieldV, FuncCall, FuncDecl, FuncDeclV, Ident, Literal, Name, Param, Path,
    Program, Stmt, Type, TypeV, UnaryOp,
};
use crate::check_rules;
use crate::check_rules::{
    CheckerV, RoundV, ScopeV, SigV, SlotV, TyInfoV, TypeErrorV, ValueMode,
};
use crate::text::{path_to_string, str_eq};
use vstd::hash_map::StringHashMap;
use vstd::hash_set::StringHashSet;
use vstd::prelude::*;

verus! {

// ---------------------------------------------------------------------------
// Errors
// ---------------------------------------------------------------------------
/// Why a program was rejected. The first error ends a check.
#[derive(Debug, Clone, PartialEq, Eq)]
pub enum TypeError {
    UnknownIdent(String),
    UnknownType(String),
    UnknownFunc(String),
    UnknownFuncReturn(String),
    TypeMismatch { expected: Type, found: Type },
    ArityMismatch { expected: usize, found: usize },
    Moved(String),
    NotMutable(String),
    Escape,
    MainHasParams,
}

impl View for TypeError {
    type V = TypeErrorV;

    open spec fn view(&self) -> TypeErrorV {
        match self {
            TypeError::UnknownIdent(s) => TypeErrorV::UnknownIdent(s@),
            TypeError::UnknownType(s) => TypeErrorV::UnknownType(s@),
            TypeError::UnknownFunc(s) => TypeErrorV::UnknownFunc(s@),
            TypeError::UnknownFuncReturn(s) => TypeErrorV::UnknownFuncReturn(s@),
            TypeError::TypeMismatch { expected, found } => TypeErrorV::TypeMismatch {
                expected: expected@,
                found: found@,
            },
            TypeError::ArityMismatch { expected, found } => TypeErrorV::ArityMismatch {
                expected: *expected as nat,
                found: *found as nat,
            },
            TypeError::Moved(s) => TypeErrorV::Moved(s@),
            TypeError::NotMutable(s) => TypeErrorV::NotMutable(s@),
            TypeError::Escape => TypeErrorV::Escape,
            TypeError::MainHasParams => TypeErrorV::MainHasParams,
        }
    }
}

// ---------------------------------------------------------------------------
// State
// ---------------------------------------------------------------------------
/// What the checker knows of one binding.
pub struct BindingInfo {
    pub ty: Type,
    pub mutable: bool,
    pub moved: bool,
    pub origin_depth: usize,
}

impl View for BindingInfo {
    type V = SlotV;

    open spec fn view(&self) -> SlotV {
        SlotV {
            ty: self.ty@,
            mutable: self.mutable,
            moved: self.moved,
            origin_depth: self.origin_depth as nat,
        }
    }
}

/// One scope of the checker.
pub struct Scope {
    pub vars: StringHashMap<BindingInfo>,
}

impl View for Scope {
    type V = ScopeV;

    open spec fn view(&self) -> ScopeV {
        self.vars@.map_values(|b: BindingInfo| b@)
    }
}

/// A function signature as the checker keeps it.
pub struct FuncSig {
    pub params: Vec<Param>,
    pub ret: Option<Type>,
}

impl View for FuncSig {
    type V = SigV;

    open spec fn view(&self) -> SigV {
        SigV { params: params_view(self.params@), ret: opt_type_view(self.ret) }
    }
}

/// The type of a checked expression and where its value comes from.
pub struct TyInfo {
    pub ty: Type,
    pub origin_depth: usize,
    pub escapable: bool,
}

impl View for TyInfo {
    type V = TyInfoV;

    open spec fn view(&self) -> TyInfoV {
        TyInfoV {
            ty: self.ty@,
            origin_depth: self.origin_depth as nat,
            escapable: self.escapable,
        }
    }
}

/// The static checker. It knows the type names, the function signatures
/// and, scope by scope, the bindings with their types and whether they are
/// moved.
pub struct TypeChecker {
    types: StringHashMap<Type>,
    funcs: StringHashMap<FuncSig>,
    scopes: Vec<Scope>,
    builtins: StringHashSet,
}

pub open spec fn types_view(m: Map<Name, Type>) -> Map<Name, TypeV> {
    m.map_values(|t: Type| t@)
}

pub open spec fn sigs_view(m: Map<Name, FuncSig>) -> Map<Name, SigV> {
    m.map_values(|s: FuncSig| s@)
}

pub open spec fn scopes_view(v: Seq<Scope>) -> Seq<ScopeV> {
    Seq::new(v.len(), |i: int| v[i]@)
}

impl View for TypeChecker {
    type V = CheckerV;

    closed spec fn view(&self) -> CheckerV {
        CheckerV {
            types: types_view(self.types@),
            builtins: self.builtins@,
            funcs: sigs_view(self.funcs@),
            scopes: scopes_view(self.scopes@),
        }
    }
}

/// The model of a result that carries a type.
pub open spec fn type_result(r: Result<Type, TypeError>) -> Result<TypeV, TypeErrorV> {
    match r {
        Ok(t) => Ok(t@),
        Err(e) => Err(e@),
    }
}

/// The model of a result that carries nothing.
pub open spec fn unit_result(r: Result<(), TypeError>) -> Result<(), TypeErrorV> {
    match r {
        Ok(()) => Ok(()),
        Err(e) => Err(e@),
    }
}

/// The model of a result that carries a truth value.
pub open spec fn bool_result(r: Result<bool, TypeError>) -> Result<bool, TypeErrorV> {
    match r {
        Ok(b) => Ok(b),
        Err(e) => Err(e@),
    }
}

/// The model of a result that carries the type of an expression.
pub open spec fn info_result(r: Result<TyInfo, TypeError>) -> Result<TyInfoV, TypeErrorV> {
    match r {
        Ok(i) => Ok(i@),
        Err(e) => Err(e@),
    }
}

/// The model of the result of a lookup.
pub open spec fn lookup_result(r: Result<(usize, BindingInfo), TypeError>) -> Result<
    (nat, SlotV),
    TypeErrorV,
> {
    match r {
        Ok((d, b)) => Ok((d as nat, b@)),
        Err(e) => Err(e@),
    }
}

pub proof fn lemma_types_view_insert(m: Map<Name, Type>, k: Name, t: Type)
    ensures
        types_view(m.insert(k, t)) == types_view(m).insert(k, t@),
{
    assert(types_view(m.insert(k, t)) =~= types_view(m).insert(k, t@));
}

pub proof fn lemma_sigs_view_insert(m: Map<Name, FuncSig>, k: Name, s: FuncSig)
    ensures
        sigs_view(m.insert(k, s)) == sigs_view(m).insert(k, s@),
{
    assert(sigs_view(m.insert(k, s)) =~= sigs_view(m).insert(k, s@));
}

pub proof fn lemma_scope_view_insert(m: Map<Name, BindingInfo>, k: Name, b: BindingInfo)
    ensures
        m.insert(k, b).map_values(|b: BindingInfo| b@) == m.map_values(|b: BindingInfo| b@).insert(
            k,
            b@,
        ),
{
    assert(m.insert(k, b).map_values(|b: BindingInfo| b@) =~= m.map_values(
        |b: BindingInfo| b@,
    ).insert(k, b@));
}

/// The type named `name`.
pub fn named_type(name: &str) -> (t: Type)
    ensures
        t@ == named(name),
{
    Type::Named(Ident(String::from_str(name)))
}

fn plain_param(name: &str, ty: &str) -> (p: Param)
    ensures
        p@ == check_rules::param(name, ty),
{
    Param { mutable: false, name: Ident(String::from_str(name)), ty: named_type(ty) }
}

fn add_type(types: &mut StringHashMap<Type>, name: &str, ty: Type)
    ensures
        types_view(final(types)@) == types_view(old(types)@).insert(name@, ty@),
        final(types)@.dom() == old(types)@.dom().insert(name@),
{
    proof {
        lemma_types_view_insert(types@, name@, ty);
    }
    types.insert(String::from_str(name), ty);
}

fn add_func(funcs: &mut StringHashMap<FuncSig>, name: &str, params: Vec<Param>, ret: &str)
    ensures
        sigs_view(final(funcs)@) == sigs_view(old(funcs)@).insert(
            name@,
            check_rules::sig(params_view(params@), ret),
        ),
{
    let s = FuncSig { params, ret: Some(named_type(ret)) };
    proof {
        lemma_sigs_view_insert(funcs@, name@, s);
    }
    funcs.insert(String::from_str(name), s);
}

fn params1(a: Param) -> (r: Vec<Param>)
    ensures
        params_view(r@) == seq![a@],
{
    let mut v: Vec<Param> = Vec::new();
    v.push(a);
    assert(params_view(v@) =~= seq![a@]);
    v
}

fn params2(a: Param, b: Param) -> (r: Vec<Param>)
    ensures
        params_view(r@) == seq![a@, b@],
{
    let mut v: Vec<Param> = Vec::new();
    v.push(a);
    v.push(b);
    assert(params_view(v@) =~= seq![a@, b@]);
    v
}

fn params3(a: Param, b: Param, c: Param) -> (r: Vec<Param>)
    ensures
        params_view(r@) == seq![a@, b@, c@],
{
    let mut v: Vec<Param> = Vec::new();
    v.push(a);
    v.push(b);
    v.push(c);
    assert(params_view(v@) =~= seq![a@, b@, c@]);
    v
}

fn read_file_result() -> (t: Type)
    ensures
        t@ == TypeV::Record(
            seq![
                FieldV { name: "ok"@, ty: named("bool") },
                FieldV { name: "data"@, ty: named("Str") },
            ],
        ),
{
    let mut fields: Vec<FieldType> = Vec::new();
    fields.push(FieldType { name: Ident(String::from_str("ok")), ty: named_type("bool") });
    fields.push(FieldType { name: Ident(String::from_str("data")), ty: named_type("Str") });
    let t = Type::Record(fields);
    assert(t@->Record_0 =~= seq![
        FieldV { name: "ok"@, ty: named("bool") },
        FieldV { name: "data"@, ty: named("Str") },
    ]);
    t
}

impl TypeChecker {
    /// What must hold of a checker between calls: it knows finitely many
    /// type names.
    pub closed spec fn wf(&self) -> bool {
        self.types@.dom().finite()
    }

    /// A checker that knows the builtin types and functions and has no scope
    /// open.
    #[verifier::rlimit(40)]
    pub fn new() -> (r: Self)
        ensures
            r.wf(),
            r@ == check_rules::initial_checker(),
    {
        let mut types: StringHashMap<Type> = StringHashMap::new();
        let mut builtins = StringHashSet::new();
        assert(types_view(types@) =~= Map::<Name, TypeV>::empty());
        add_type(&mut types, "i32", named_type("i32"));
        builtins.insert(String::from_str("i32"));
        add_type(&mut types, "i64", named_type("i64"));
        builtins.insert(String::from_str("i64"));
        add_type(&mut types, "u8", named_type("u8"));
        builtins.insert(String::from_str("u8"));
        add_type(&mut types, "bool", named_type("bool"));
        builtins.insert(String::from_str("bool"));
        add_type(&mut types, "Str", named_type("Str"));
        builtins.insert(String::from_str("Str"));
        add_type(&mut types, "Bytes", named_type("Bytes"));
        builtins.insert(String::from_str("Bytes"));
        add_type(&mut types, "Unit", named_type("Unit"));
        builtins.insert(String::from_str("Unit"));
        add_type(&mut types, "ReadFileResult", read_file_result());
        builtins.insert(String::from_str("ReadFileResult"));

        let mut funcs: StringHashMap<FuncSig> = StringHashMap::new();
        assert(sigs_view(funcs@) =~= Map::<Name, SigV>::empty());
        add_func(&mut funcs, "print", params1(plain_param("msg", "Str")), "Str");
        add_func(&mut funcs, "println", params1(plain_param("msg", "Str")), "Str");
        add_func(&mut funcs, "read_file", params1(plain_param("path", "Str")), "Str");
        add_func(
            &mut funcs,
            "write_file",
            params2(plain_param("path", "Str"), plain_param("data", "Str")),
            "Unit",
        );
        let none: Vec<Param> = Vec::new();
        assert(params_view(none@) =~= Seq::<crate::ast::ParamV>::empty());
        add_func(&mut funcs, "args", none, "Bytes");
        add_func(&mut funcs, "bytes_to_str", params1(plain_param("buf", "Bytes")), "Str");
        add_func(
            &mut funcs,
            "try_read_file",
            params1(plain_param("path", "Str")),
            "ReadFileResult",
        );
        add_func(
            &mut funcs,
            "try_write_file",
            params2(plain_param("path", "Str"), plain_param("data", "Str")),
            "bool",
        );
        add_func(&mut funcs, "str_len", params1(plain_param("s", "Str")), "i32");
        add_func(
            &mut funcs,
            "str_byte_at",
            params2(plain_param("s", "Str"), plain_param("i", "i32")),
            "i32",
        );
        add_func(
            &mut funcs,
            "str_slice",
            params3(
                plain_param("s", "Str"),
                plain_param("start", "i32"),
                plain_param("len", "i32"),
            ),
            "Str",
        );
        let r = TypeChecker { types, funcs, scopes: Vec::new(), builtins };
        assert(r@.scopes =~= Seq::<ScopeV>::empty());
        assert(r@.builtins =~= check_rules::builtin_types().dom());
        r
    }
}

/// The innermost type under the references around `ty`.
fn strip_refs(ty: &Type) -> (r: &Type)
    ensures
        r@ == check_rules::strip_refs(ty@),
    decreases ty,
{
    match ty {
        Type::Ref(inner) => strip_refs(inner),
        _ => ty,
    }
}

/// The type of the first field called `name`.
fn find_field<'a>(fields: &'a Vec<FieldType>, name: &str, Ghost(fv): Ghost<Seq<FieldV>>) -> (r:
    Option<&'a Type>)
    requires
        fv.len() == fields.len(),
        forall|j: int| 0 <= j < fields.len() ==> fv[j] == fields@[j]@,
    ensures
        match r {
            Some(t) => check_rules::find_field(fv, name@) == Some(t@),
            None => check_rules::find_field(fv, name@) is None,
        },
{
    let mut i: usize = 0;
    proof {
        assert(fv.skip(0) =~= fv);
    }
    while i < fields.len()
        invariant
            i <= fields.len(),
            fv.len() == fields.len(),
            forall|j: int| 0 <= j < fields.len() ==> fv[j] == fields@[j]@,
            check_rules::find_field(fv, name@) == check_rules::find_field(fv.skip(i as int), name@),
        decreases fields.len() - i,
    {
        proof {
            assert(fv.skip(i as int).drop_first() =~= fv.skip(i + 1));
        }
        if str_eq(fields[i].name.0.as_str(), name) {
            return Some(&fields[i].ty);
        }
        i += 1;
    }
    None
}

impl TypeChecker {
    fn push_scope(&mut self)
        requires
            old(self).wf(),
        ensures
            final(self).wf(),
            final(self)@ == check_rules::push_scope(old(self)@),
    {
        let scope = Scope { vars: StringHashMap::new() };
        proof {
            assert(scope@ =~= Map::<Name, SlotV>::empty());
        }
        self.scopes.push(scope);
        proof {
            assert(scopes_view(self.scopes@) =~= scopes_view(old(self).scopes@).push(Map::empty()));
        }
    }

    fn pop_scope(&mut self)
        requires
            old(self).wf(),
        ensures
            final(self).wf(),
            final(self)@ == check_rules::pop_scope(old(self)@),
    {
        let _ = self.scopes.pop();
        proof {
            if old(self).scopes@.len() > 0 {
                assert(scopes_view(self.scopes@) =~= scopes_view(old(self).scopes@).drop_last());
            }
        }
    }

    fn current_depth(&self) -> (d: usize)
        ensures
            d == check_rules::depth_of(self@),
    {
        if self.scopes.len() == 0 {
            0
        } else {
            self.scopes.len() - 1
        }
    }

    fn insert_var(&mut self, name: String, ty: Type, mutable: bool, origin_depth: usize)
        requires
            old(self).wf(),
        ensures
            final(self).wf(),
            final(self)@ == check_rules::insert_var(
                old(self)@,
                name@,
                SlotV { ty: ty@, mutable, moved: false, origin_depth: origin_depth as nat },
            ),
    {
        let n = self.scopes.len();
        if n > 0 {
            let info = BindingInfo { ty, mutable, moved: false, origin_depth };
            proof {
                lemma_scope_view_insert(self.scopes@[n - 1].vars@, name@, info);
            }
            self.scopes[n - 1].vars.insert(name, info);
            proof {
                assert(scopes_view(self.scopes@) =~= scopes_view(old(self).scopes@).update(
                    n - 1,
                    scopes_view(old(self).scopes@).last().insert(name@, info@),
                ));
            }
        }
    }

    /// The innermost scope that declares `name`.
    fn find_scope(&self, name: &str) -> (r: Option<usize>)
        ensures
            match r {
                Some(d) => d < self.scopes.len() && self.scopes@[d as int].vars@.contains_key(
                    name@,
                ) && crate::scopes::find_scope(self@.scopes, name@) == Some(d as int),
                None => crate::scopes::find_scope(self@.scopes, name@) is None,
            },
    {
        let mut idx: usize = self.scopes.len();
        proof {
            assert(self@.scopes.take(idx as int) =~= self@.scopes);
        }
        while idx > 0
            invariant
                idx <= self.scopes.len(),
                crate::scopes::find_scope(self@.scopes, name@) == crate::scopes::find_scope(
                    self@.scopes.take(idx as int),
                    name@,
                ),
            decreases idx,
        {
            proof {
                assert(self@.scopes.take(idx as int).drop_last() =~= self@.scopes.take(idx - 1));
            }
            idx -= 1;
            if self.scopes[idx].vars.contains_key(name) {
                return Some(idx);
            }
        }
        proof {
            assert(self@.scopes.take(self.scopes.len() as int) =~= self@.scopes);
        }
        None
    }

    #[verifier::loop_isolation(false)]
    #[verifier::rlimit(40)]
    fn lookup_binding(&self, path: &Path) -> (r: Result<(usize, BindingInfo), TypeError>)
        ensures
            lookup_result(r) == check_rules::lookup(self@, path@),
    {
        if path.0.len() == 0 {
            return Err(TypeError::UnknownIdent(String::new()));
        }
        let head = &path.0[0];
        let depth = match self.find_scope(head.0.as_str()) {
            None => {
                return Err(TypeError::UnknownIdent(head.0.clone()));
            },
            Some(d) => d,
        };
        let info = match self.scopes[depth].vars.get(head.0.as_str()) {
            Some(info) => info,
            None => {
                return Err(TypeError::UnknownIdent(head.0.clone()));
            },
        };
        let mut cur: &Type = &info.ty;
        let mut i: usize = 1;
        while i < path.0.len()
            invariant
                1 <= i <= path.0.len(),
                check_rules::walk_fields(info.ty@, path@.drop_first()) == check_rules::walk_fields(
                    cur@,
                    path@.skip(i as int),
                ),
            decreases path.0.len() - i,
        {
            proof {
                assert(path@.skip(i as int).drop_first() =~= path@.skip(i + 1));
                assert(path@.skip(i as int)[0] == path.0@[i as int]@);
            }
            let field = &path.0[i];
            match strip_refs(cur) {
                Type::Record(fields) => {
                    let ghost fv = check_rules::strip_refs(cur@)->Record_0;
                    match find_field(fields, field.0.as_str(), Ghost(fv)) {
                        Some(t) => {
                            cur = t;
                        },
                        None => {
                            return Err(TypeError::UnknownIdent(field.0.clone()));
                        },
                    }
                },
                _ => {
                    return Err(TypeError::UnknownIdent(field.0.clone()));
                },
            }
            i += 1;
        }
        proof {
            assert(path@.skip(path.0.len() as int) =~= Seq::<Name>::empty());
            assert(path@.drop_first() =~= path@.skip(1));
        }
        Ok(
            (
                depth,
                BindingInfo {
                    ty: cur.clone(),
                    mutable: info.mutable,
                    moved: info.moved,
                    origin_depth: info.origin_depth,
                },
            ),
        )
    }

    /// Sets the moved flag of the innermost binding that `path` starts at.
    fn set_moved(&mut self, path: &Path, moved: bool) -> (r: Result<(), TypeError>)
        requires
            old(self).wf(),
        ensures
            final(self).wf(),
            final(self)@ == (if path@.len() == 0 {
                old(self)@
            } else {
                check_rules::set_moved(old(self)@, path@[0], moved)
            }),
            unit_result(r) == (if path@.len() == 0 {
                Err(TypeErrorV::UnknownIdent(Seq::empty()))
            } else if crate::scopes::find_scope(old(self)@.scopes, path@[0]) is None {
                Err(TypeErrorV::UnknownIdent(path@[0]))
            } else {
                Ok(())
            }),
    {
        if path.0.len() == 0 {
            return Err(TypeError::UnknownIdent(String::new()));
        }
        let head = &path.0[0];
        match self.find_scope(head.0.as_str()) {
            None => Err(TypeError::UnknownIdent(head.0.clone())),
            Some(d) => {
                let info = match self.scopes[d].vars.get(head.0.as_str()) {
                    Some(info) => BindingInfo {
                        ty: info.ty.clone(),
                        mutable: info.mutable,
                        moved,
                        origin_depth: info.origin_depth,
                    },
                    None => {
                        return Ok(());
                    },
                };
                proof {
                    lemma_scope_view_insert(self.scopes@[d as int].vars@, head@, info);
                }
                self.scopes[d].vars.insert(head.0.clone(), info);
                proof {
                    let old_scopes = scopes_view(old(self).scopes@);
                    assert(scopes_view(self.scopes@) =~= old_scopes.update(
                        d as int,
                        old_scopes[d as int].insert(head@, info@),
                    ));
                }
                Ok(())
            },
        }
    }

    /// Reads a path in the given mode.
    fn eval_path(&mut self, path: &Path, mode: ValueMode) -> (r: Result<TyInfo, TypeError>)
        requires
            old(self).wf(),
        ensures
            final(self).wf(),
            (final(self)@, info_result(r)) == check_rules::read_path(old(self)@, path@, mode),
    {
        let (_depth, info) = match self.lookup_binding(path) {
            Ok(found) => found,
            Err(e) => {
                return Err(e);
            },
        };
        if info.moved {
            return Err(TypeError::Moved(path_to_string(path)));
        }
        match mode {
            ValueMode::Move => {
                let _ = self.set_moved(path, true);
            },
            ValueMode::Copy | ValueMode::Borrow => {},
        }
        Ok(TyInfo { ty: info.ty, origin_depth: info.origin_depth, escapable: false })
    }

    /// Expands the aliases in `ty`; `seen` holds the aliases that are being
    /// expanded around it.
    #[verifier::loop_isolation(false)]
    #[verifier::rlimit(40)]
    fn resolve(&self, ty: &Type, seen: &mut StringHashSet) -> (r: Result<Type, TypeError>)
        requires
            self.wf(),
        ensures
            final(seen)@ == old(seen)@,
            type_result(r) == check_rules::resolve(
                self@,
                ty@,
                self@.types.dom().difference(old(seen)@),
            ),
        decreases self@.types.dom().difference(old(seen)@).len(), ty, 0nat,
    {
        let ghost unseen = self@.types.dom().difference(old(seen)@);
        assert(self@.types.dom() =~= self.types@.dom());
        match ty {
            Type::Named(id) => {
                match self.types.get(id.0.as_str()) {
                    None => Err(TypeError::UnknownType(id.0.clone())),
                    Some(t) => {
                        if self.builtins.contains(id.0.as_str()) {
                            Ok(t.clone())
                        } else if seen.contains(id.0.as_str()) {
                            Err(TypeError::UnknownType(id.0.clone()))
                        } else {
                            seen.insert(id.0.clone());
                            proof {
                                assert(self@.types.dom().difference(seen@) =~= unseen.remove(id@));
                            }
                            let r = self.resolve(t, seen);
                            seen.remove(id.0.as_str());
                            proof {
                                assert(seen@ =~= old(seen)@);
                            }
                            r
                        }
                    },
                }
            },
            Type::Ref(inner) => match self.resolve(inner, seen) {
                Ok(t) => Ok(Type::Ref(Box::new(t))),
                Err(e) => Err(e),
            },
            Type::Record(fields) => {
                let ghost fv = ty@->Record_0;
                let mut out: Vec<FieldType> = Vec::new();
                let ghost mut acc: Seq<FieldV> = Seq::empty();
                let mut i: usize = 0;
                while i < fields.len()
                    invariant
                        i <= fields.len(),
                        seen@ == old(seen)@,
                        acc.len() == out.len(),
                        forall|j: int| 0 <= j < out.len() ==> acc[j] == out@[j]@,
                        check_rules::resolve_fields(self@, fv, 0, Seq::empty(), unseen)
                            == check_rules::resolve_fields(self@, fv, i as int, acc, unseen),
                    decreases fields.len() - i,
                {
                    let f = &fields[i];
                    match self.resolve(&f.ty, seen) {
                        Err(e) => {
                            return Err(e);
                        },
                        Ok(t) => {
                            let nf = FieldType { name: f.name.clone(), ty: t };
                            proof {
                                acc = acc.push(nf@);
                            }
                            out.push(nf);
                        },
                    }
                    i += 1;
                }
                let r = Type::Record(out);
                proof {
                    assert(r@->Record_0 =~= acc);
                }
                Ok(r)
            },
        }
    }

    /// The structural form of `ty`.
    fn resolve_type(&self, ty: &Type) -> (r: Result<Type, TypeError>)
        requires
            self.wf(),
        ensures
            type_result(r) == check_rules::resolve_type(self@, ty@),
    {
        let mut seen = StringHashSet::new();
        proof {
            assert(self@.types.dom().difference(seen@) =~= self@.types.dom());
        }
        self.resolve(ty, &mut seen)
    }

    fn type_eq(&self, a: &Type, b: &Type) -> (r: Result<bool, TypeError>)
        requires
            self.wf(),
        ensures
            bool_result(r) == check_rules::types_equal(self@, a@, b@),
    {
        let ra = match self.resolve_type(a) {
            Ok(t) => t,
            Err(e) => {
                return Err(e);
            },
        };
        let rb = match self.resolve_type(b) {
            Ok(t) => t,
            Err(e) => {
                return Err(e);
            },
        };
        Ok(same_type(&ra, &rb))
    }

    fn ensure_type(&self, expected: &Type, found: &Type) -> (r: Result<(), TypeError>)
        requires
            self.wf(),
        ensures
            unit_result(r) == check_rules::ensure_type(self@, expected@, found@),
    {
        match self.type_eq(expected, found) {
            Err(e) => Err(e),
            Ok(true) => Ok(()),
            Ok(false) => Err(
                TypeError::TypeMismatch { expected: expected.clone(), found: found.clone() },
            ),
        }
    }

    /// The escape rule for a value that leaves the scope that produced it.
    fn may_leave(&self, info: &TyInfo) -> (r: Result<(), TypeError>)
        requires
            self.wf(),
        ensures
            unit_result(r) == check_rules::may_leave(self@, info@),
    {
        if !info.escapable {
            return Err(TypeError::Escape);
        }
        match self.resolve_type(&info.ty) {
            Err(e) => Err(e),
            Ok(t) => if type_contains_ref(&t) {
                Err(TypeError::Escape)
            } else {
                Ok(())
            },
        }
    }

    fn ensure_not_escape(&self, info: &TyInfo, target_depth: usize) -> (r: Result<(), TypeError>)
        requires
            self.wf(),
        ensures
            unit_result(r) == check_rules::ensure_not_escape(self@, info@, target_depth as nat),
    {
        if info.origin_depth > target_depth {
            self.may_leave(info)
        } else {
            Ok(())
        }
    }
}

/// The type of a literal.
pub fn literal_type(lit: &Literal) -> (t: Type)
    ensures
        t@ == check_rules::literal_type(lit@),
{
    match lit {
        Literal::Int(_) => named_type("i32"),
        Literal::Bool(_) => named_type("bool"),
        Literal::Str(_) => named_type("Str"),
        Literal::Unit => named_type("Unit"),
    }
}

/// The models of a list of borrowed functions.
pub open spec fn funcs_view(fs: Seq<&FuncDecl>) -> Seq<FuncDeclV> {
    Seq::new(fs.len(), |i: int| fs[i]@)
}

impl TypeChecker {
    /// The result type of a binary operator.
    fn binary_type(&self, op: BinaryOp, l: &Type, r: &Type) -> (t: Result<Type, TypeError>)
        requires
            self.wf(),
        ensures
            type_result(t) == check_rules::binary_type(self@, op, l@, r@),
    {
        match op {
            BinaryOp::Add | BinaryOp::Sub | BinaryOp::Mul | BinaryOp::Div => {
                let int_ty = named_type("i32");
                let str_ty = named_type("Str");
                let l_int = match self.type_eq(l, &int_ty) {
                    Ok(b) => b,
                    Err(e) => {
                        return Err(e);
                    },
                };
                let both_int = if l_int {
                    match self.type_eq(r, &int_ty) {
                        Ok(b) => b,
                        Err(e) => {
                            return Err(e);
                        },
                    }
                } else {
                    false
                };
                if both_int {
                    return Ok(int_ty);
                }
                let l_str = match self.type_eq(l, &str_ty) {
                    Ok(b) => b,
                    Err(e) => {
                        return Err(e);
                    },
                };
                let both_str = if l_str {
                    match self.type_eq(r, &str_ty) {
                        Ok(b) => b,
                        Err(e) => {
                            return Err(e);
                        },
                    }
                } else {
                    false
                };
                if both_str {
                    Ok(str_ty)
                } else {
                    Err(TypeError::TypeMismatch { expected: l.clone(), found: r.clone() })
                }
            },
            BinaryOp::Lt | BinaryOp::Eq => match self.ensure_type(l, r) {
                Err(e) => Err(e),
                Ok(()) => Ok(named_type("bool")),
            },
            BinaryOp::And | BinaryOp::Or => {
                let bool_ty = named_type("bool");
                match self.ensure_type(&bool_ty, l) {
                    Err(e) => Err(e),
                    Ok(()) => match self.ensure_type(&bool_ty, r) {
                        Err(e) => Err(e),
                        Ok(()) => Ok(bool_ty),
                    },
                }
            },
        }
    }

    #[verifier::loop_isolation(false)]
    #[verifier::rlimit(40)]
    fn check_expr(&mut self, expr: &Expr, mode: ValueMode) -> (r: Result<TyInfo, TypeError>)
        requires
            old(self).wf(),
        ensures
            final(self).wf(),
            (final(self)@, info_result(r)) == check_rules::check_expr(old(self)@, expr@, mode),
        decreases expr, 0nat,
    {
        match expr {
            Expr::Literal(l) => Ok(
                TyInfo {
                    ty: literal_type(l),
                    origin_depth: self.current_depth(),
                    escapable: true,
                },
            ),
            Expr::Path(p) => self.eval_path(p, mode),
            Expr::Copy(inner) => self.check_expr(inner, ValueMode::Copy),
            Expr::Ref(inner) => match self.check_expr(inner, ValueMode::Borrow) {
                Err(e) => Err(e),
                Ok(info) => Ok(
                    TyInfo {
                        ty: Type::Ref(Box::new(info.ty)),
                        origin_depth: info.origin_depth,
                        escapable: info.escapable,
                    },
                ),
            },
            Expr::FuncCall(fc) => {
                proof {
                    assert(expr@->FuncCall_args =~= exprs_view(fc.args@));
                }
                self.eval_call(fc)
            },
            Expr::If(ifexpr) => {
                let cond = match self.check_expr(&ifexpr.cond, ValueMode::Move) {
                    Ok(c) => c,
                    Err(e) => {
                        return Err(e);
                    },
                };
                match self.ensure_type(&named_type("bool"), &cond.ty) {
                    Ok(()) => {},
                    Err(e) => {
                        return Err(e);
                    },
                }
                let t = match self.check_expr(&ifexpr.then_branch, ValueMode::Move) {
                    Ok(t) => t,
                    Err(e) => {
                        return Err(e);
                    },
                };
                let e = match self.check_expr(&ifexpr.else_branch, ValueMode::Move) {
                    Ok(e) => e,
                    Err(e) => {
                        return Err(e);
                    },
                };
                match self.ensure_type(&t.ty, &e.ty) {
                    Ok(()) => {},
                    Err(e) => {
                        return Err(e);
                    },
                }
                let depth = if t.origin_depth >= e.origin_depth {
                    t.origin_depth
                } else {
                    e.origin_depth
                };
                Ok(TyInfo { ty: t.ty, origin_depth: depth, escapable: t.escapable && e.escapable })
            },
            Expr::Block(b) => self.check_block(b, false),
            Expr::RecordLit(rl) => {
                let ghost fv = field_inits_view(rl.fields@);
                proof {
                    assert(expr@->RecordLit_0 =~= fv);
                }
                let mut fields: Vec<FieldType> = Vec::new();
                let ghost mut acc: Seq<FieldV> = Seq::empty();
                let mut max_depth = self.current_depth();
                let mut escapable = true;
                let mut i: usize = 0;
                while i < rl.fields.len()
                    invariant
                        i <= rl.fields.len(),
                        self.wf(),
                        acc.len() == fields.len(),
                        forall|j: int| 0 <= j < fields.len() ==> acc[j] == fields@[j]@,
                        check_rules::check_expr(old(self)@, expr@, mode) == check_rules::check_record(
                            self@,
                            fv,
                            i as int,
                            acc,
                            max_depth as nat,
                            escapable,
                        ),
                    decreases rl.fields.len() - i,
                {
                    let f = &rl.fields[i];
                    let val = match self.check_expr(&f.value, ValueMode::Move) {
                        Ok(v) => v,
                        Err(e) => {
                            return Err(e);
                        },
                    };
                    if val.origin_depth > max_depth {
                        max_depth = val.origin_depth;
                    }
                    escapable = escapable && val.escapable;
                    let nf = FieldType { name: f.name.clone(), ty: val.ty };
                    proof {
                        acc = acc.push(nf@);
                    }
                    fields.push(nf);
                    i += 1;
                }
                let ty = Type::Record(fields);
                proof {
                    assert(ty@->Record_0 =~= acc);
                }
                Ok(TyInfo { ty, origin_depth: max_depth, escapable })
            },
            Expr::Unary(u) => {
                let val = match self.check_expr(&u.expr, ValueMode::Move) {
                    Ok(v) => v,
                    Err(e) => {
                        return Err(e);
                    },
                };
                let want = match u.op {
                    UnaryOp::Neg => named_type("i32"),
                    UnaryOp::Not => named_type("bool"),
                };
                match self.ensure_type(&want, &val.ty) {
                    Err(e) => Err(e),
                    Ok(()) => Ok(val),
                }
            },
            Expr::Binary(b) => {
                let l = match self.check_expr(&b.left, ValueMode::Move) {
                    Ok(v) => v,
                    Err(e) => {
                        return Err(e);
                    },
                };
                let r = match self.check_expr(&b.right, ValueMode::Move) {
                    Ok(v) => v,
                    Err(e) => {
                        return Err(e);
                    },
                };
                match self.binary_type(b.op, &l.ty, &r.ty) {
                    Err(e) => Err(e),
                    Ok(ty) => {
                        let depth = if l.origin_depth >= r.origin_depth {
                            l.origin_depth
                        } else {
                            r.origin_depth
                        };
                        Ok(
                            TyInfo {
                                ty,
                                origin_depth: depth,
                                escapable: l.escapable && r.escapable,
                            },
                        )
                    },
                }
            },
        }
    }

    #[verifier::loop_isolation(false)]
    #[verifier::rlimit(40)]
    fn eval_call(&mut self, call: &FuncCall) -> (r: Result<TyInfo, TypeError>)
        requires
            old(self).wf(),
        ensures
            final(self).wf(),
            (final(self)@, info_result(r)) == check_rules::check_call(
                old(self)@,
                call.callee@,
                exprs_view(call.args@),
            ),
        decreases call, 0nat,
    {
        if call.callee.0.len() != 1 {
            return Err(TypeError::UnknownFunc(path_to_string(&call.callee)));
        }
        let name = &call.callee.0[0];
        let (params, ret) = match self.funcs.get(name.0.as_str()) {
            None => {
                return Err(TypeError::UnknownFunc(name.0.clone()));
            },
            Some(sig) => (clone_params(&sig.params), clone_opt_type(&sig.ret)),
        };
        proof {
            assert(params_view(params@).len() == params.len());
        }
        if params.len() != call.args.len() {
            return Err(
                TypeError::ArityMismatch { expected: params.len(), found: call.args.len() },
            );
        }
        let ghost av = exprs_view(call.args@);
        let ghost pv = params_view(params@);
        let mut i: usize = 0;
        while i < call.args.len()
            invariant
                i <= call.args.len(),
                self.wf(),
                check_rules::check_args(old(self)@, av, pv, 0) == check_rules::check_args(
                    self@,
                    av,
                    pv,
                    i as int,
                ),
            decreases call.args.len() - i,
        {
            let arg = match self.check_expr(&call.args[i], ValueMode::Move) {
                Ok(a) => a,
                Err(e) => {
                    return Err(e);
                },
            };
            let pty = match self.resolve_type(&params[i].ty) {
                Ok(t) => t,
                Err(e) => {
                    return Err(e);
                },
            };
            match self.ensure_type(&pty, &arg.ty) {
                Ok(()) => {},
                Err(e) => {
                    return Err(e);
                },
            }
            i += 1;
        }
        match ret {
            None => Err(TypeError::UnknownFuncReturn(name.0.clone())),
            Some(ret_ty) => {
                let escapable = !type_contains_ref(&ret_ty);
                Ok(TyInfo { ty: ret_ty, origin_depth: self.current_depth(), escapable })
            },
        }
    }

    fn check_block(&mut self, block: &Block, allow_escape_values: bool) -> (r: Result<
        TyInfo,
        TypeError,
    >)
        requires
            old(self).wf(),
        ensures
            final(self).wf(),
            (final(self)@, info_result(r)) == check_rules::check_block(
                old(self)@,
                block@,
                allow_escape_values,
            ),
        decreases block, 1nat,
    {
        self.push_scope();
        let r = self.block_body(block, allow_escape_values);
        self.pop_scope();
        r
    }

    #[verifier::loop_isolation(false)]
    #[verifier::rlimit(40)]
    fn block_body(&mut self, block: &Block, allow_escape_values: bool) -> (r: Result<
        TyInfo,
        TypeError,
    >)
        requires
            old(self).wf(),
        ensures
            final(self).wf(),
            (final(self)@, info_result(r)) == check_rules::block_body(
                old(self)@,
                block@,
                allow_escape_values,
            ),
        decreases block, 0nat,
    {
        let depth = self.current_depth();
        let ghost sv = block@.stmts;
        let mut i: usize = 0;
        while i < block.stmts.len()
            invariant
                i <= block.stmts.len(),
                self.wf(),
                check_rules::check_stmts(old(self)@, sv, 0) == check_rules::check_stmts(
                    self@,
                    sv,
                    i as int,
                ),
            decreases block.stmts.len() - i,
        {
            match self.check_stmt(&block.stmts[i]) {
                Ok(()) => {},
                Err(e) => {
                    return Err(e);
                },
            }
            i += 1;
        }
        match &block.tail {
            None => Ok(TyInfo { ty: named_type("Unit"), origin_depth: depth, escapable: true }),
            Some(expr) => {
                let info = match self.check_expr(expr, ValueMode::Move) {
                    Ok(v) => v,
                    Err(e) => {
                        return Err(e);
                    },
                };
                if info.origin_depth > depth {
                    if !allow_escape_values {
                        return Err(TypeError::Escape);
                    }
                    match self.may_leave(&info) {
                        Ok(()) => {},
                        Err(e) => {
                            return Err(e);
                        },
                    }
                }
                if allow_escape_values {
                    let escapable = !type_contains_ref(&info.ty);
                    Ok(TyInfo { ty: info.ty, origin_depth: depth, escapable })
                } else {
                    Ok(TyInfo { ty: info.ty, origin_depth: info.origin_depth, escapable: false })
                }
            },
        }
    }

    fn check_stmt(&mut self, stmt: &Stmt) -> (r: Result<(), TypeError>)
        requires
            old(self).wf(),
        ensures
            final(self).wf(),
            (final(self)@, unit_result(r)) == check_rules::check_stmt(old(self)@, stmt@),
        decreases stmt, 0nat,
    {
        match stmt {
            Stmt::Binding(b) => {
                let depth = self.current_depth();
                self.check_binding(b, depth)
            },
            Stmt::Assign(a) => self.check_assign(a),
            Stmt::Expr(e) => match self.check_expr(e, ValueMode::Move) {
                Ok(_) => Ok(()),
                Err(e) => Err(e),
            },
        }
    }

    fn check_assign(&mut self, assign: &Assign) -> (r: Result<(), TypeError>)
        requires
            old(self).wf(),
        ensures
            final(self).wf(),
            (final(self)@, unit_result(r)) == check_rules::check_assign(
                old(self)@,
                assign.target@,
                assign.value@,
            ),
        decreases assign, 0nat,
    {
        let (binding_depth, info) = match self.lookup_binding(&assign.target) {
            Ok(found) => found,
            Err(e) => {
                return Err(e);
            },
        };
        if !info.mutable {
            return Err(TypeError::NotMutable(path_to_string(&assign.target)));
        }
        let value = match self.check_expr(&assign.value, ValueMode::Move) {
            Ok(v) => v,
            Err(e) => {
                return Err(e);
            },
        };
        match self.ensure_not_escape(&value, binding_depth) {
            Ok(()) => {},
            Err(e) => {
                return Err(e);
            },
        }
        match self.ensure_type(&info.ty, &value.ty) {
            Ok(()) => {},
            Err(e) => {
                return Err(e);
            },
        }
        let _ = self.set_moved(&assign.target, false);
        Ok(())
    }

    fn check_binding(&mut self, binding: &Binding, depth: usize) -> (r: Result<(), TypeError>)
        requires
            old(self).wf(),
        ensures
            final(self).wf(),
            (final(self)@, unit_result(r)) == check_rules::check_binding(
                old(self)@,
                binding@,
                depth as nat,
            ),
        decreases binding, 0nat,
    {
        let ty_ann = match self.resolve_type(&binding.ty) {
            Ok(t) => t,
            Err(e) => {
                return Err(e);
            },
        };
        let value = match self.check_expr(&binding.value, ValueMode::Move) {
            Ok(v) => v,
            Err(e) => {
                return Err(e);
            },
        };
        match self.ensure_not_escape(&value, depth) {
            Ok(()) => {},
            Err(e) => {
                return Err(e);
            },
        }
        match self.ensure_type(&ty_ann, &value.ty) {
            Ok(()) => {},
            Err(e) => {
                return Err(e);
            },
        }
        self.insert_var(binding.name.0.clone(), ty_ann, binding.mutable, depth);
        Ok(())
    }

    /// Records the return type of the function called `name`.
    fn set_return(&mut self, name: &Ident, ret: Type)
        requires
            old(self).wf(),
        ensures
            final(self).wf(),
            final(self)@ == check_rules::set_return(old(self)@, name@, ret@),
    {
        let params = match self.funcs.get(name.0.as_str()) {
            None => {
                return ;
            },
            Some(sig) => clone_params(&sig.params),
        };
        let sig = FuncSig { params, ret: Some(ret) };
        proof {
            lemma_sigs_view_insert(self.funcs@, name@, sig);
        }
        self.funcs.insert(name.0.clone(), sig);
    }

    /// The inside of a function, in the scope of its parameters.
    #[verifier::loop_isolation(false)]
    #[verifier::rlimit(40)]
    fn func_body(&mut self, func: &FuncDecl, params: &Vec<Param>, ret: &Option<Type>) -> (r: Result<
        (),
        TypeError,
    >)
        requires
            old(self).wf(),
        ensures
            final(self).wf(),
            (final(self)@, unit_result(r)) == check_rules::func_body(
                old(self)@,
                func@,
                SigV { params: params_view(params@), ret: opt_type_view(*ret) },
            ),
    {
        let depth = self.current_depth();
        let ghost pv = params_view(params@);
        let mut i: usize = 0;
        while i < params.len()
            invariant
                i <= params.len(),
                self.wf(),
                check_rules::bind_params(old(self)@, pv, 0, depth as nat)
                    == check_rules::bind_params(self@, pv, i as int, depth as nat),
            decreases params.len() - i,
        {
            let p = &params[i];
            let ty = match self.resolve_type(&p.ty) {
                Ok(t) => t,
                Err(e) => {
                    return Err(e);
                },
            };
            self.insert_var(p.name.0.clone(), ty, p.mutable, depth);
            i += 1;
        }
        let body_info = match &func.body {
            Expr::Block(b) => self.check_block(b, true),
            other => self.check_expr(other, ValueMode::Move),
        };
        let body_info = match body_info {
            Ok(v) => v,
            Err(e) => {
                return Err(e);
            },
        };
        match self.ensure_not_escape(&body_info, depth) {
            Ok(()) => {},
            Err(e) => {
                return Err(e);
            },
        }
        match ret {
            Some(annotated) => {
                match self.ensure_type(annotated, &body_info.ty) {
                    Ok(()) => {},
                    Err(e) => {
                        return Err(e);
                    },
                }
                self.set_return(&func.name, annotated.clone());
            },
            None => {
                self.set_return(&func.name, body_info.ty);
            },
        }
        Ok(())
    }

    fn check_func(&mut self, func: &FuncDecl) -> (r: Result<(), TypeError>)
        requires
            old(self).wf(),
        ensures
            final(self).wf(),
            (final(self)@, unit_result(r)) == check_rules::check_func(old(self)@, func@),
    {
        if str_eq(func.name.0.as_str(), "main") && func.params.len() != 0 {
            return Err(TypeError::MainHasParams);
        }
        let (params, ret) = match self.funcs.get(func.name.0.as_str()) {
            None => {
                return Err(TypeError::UnknownFunc(func.name.0.clone()));
            },
            Some(sig) => (clone_params(&sig.params), clone_opt_type(&sig.ret)),
        };
        self.push_scope();
        let result = self.func_body(func, &params, &ret);
        self.pop_scope();
        result
    }

    /// Checks a whole program.
    ///
    /// Type aliases and function signatures are collected first, so that a
    /// function may be called before it is declared. Then the top-level
    /// bindings are checked in order in the global scope, and the functions
    /// in rounds: a function that calls one whose return type is not known
    /// yet waits for the next round, and a round without any success ends the
    /// check. The first error ends the check; the global scope stays open.
    #[verifier::loop_isolation(false)]
    #[verifier::rlimit(40)]
    pub fn check_program(&mut self, program: &Program) -> (r: Result<(), TypeError>)
        requires
            old(self).wf(),
        ensures
            final(self).wf(),
            (final(self)@, unit_result(r)) == check_rules::check_program(old(self)@, program@),
    {
        let ghost dv = program@;
        let mut i: usize = 0;
        while i < program.decls.len()
            invariant
                i <= program.decls.len(),
                self.wf(),
                check_rules::collect(old(self)@, dv, 0) == check_rules::collect(
                    self@,
                    dv,
                    i as int,
                ),
            decreases program.decls.len() - i,
        {
            match &program.decls[i] {
                Decl::Type(t) => {
                    let ty = t.ty.clone();
                    proof {
                        lemma_types_view_insert(self.types@, t.name@, ty);
                    }
                    self.types.insert(t.name.0.clone(), ty);
                },
                Decl::Func(f) => {
                    let sig = FuncSig {
                        params: clone_params(&f.params),
                        ret: clone_opt_type(&f.ret),
                    };
                    proof {
                        lemma_sigs_view_insert(self.funcs@, f.name@, sig);
                    }
                    self.funcs.insert(f.name.0.clone(), sig);
                },
                _ => {},
            }
            i += 1;
        }
        self.push_scope();
        let ghost s1 = self@;

        let mut pending: Vec<&FuncDecl> = Vec::new();
        let mut i: usize = 0;
        while i < program.decls.len()
            invariant
                i <= program.decls.len(),
                self.wf(),
                check_rules::check_globals(s1, dv, 0) == check_rules::check_globals(
                    self@,
                    dv,
                    i as int,
                ),
                check_rules::funcs_of(dv, 0) == funcs_view(pending@) + check_rules::funcs_of(
                    dv,
                    i as int,
                ),
            decreases program.decls.len() - i,
        {
            match &program.decls[i] {
                Decl::Import(_) => {},
                Decl::Type(_) => {},
                Decl::Func(f) => {
                    proof {
                        assert(funcs_view(pending@.push(f)) =~= funcs_view(pending@) + seq![f@]);
                        assert(funcs_view(pending@) + (seq![f@] + check_rules::funcs_of(dv, i + 1))
                            =~= (funcs_view(pending@) + seq![f@]) + check_rules::funcs_of(
                            dv,
                            i + 1,
                        ));
                    }
                    pending.push(f);
                },
                Decl::Global(b) => {
                    match self.check_binding(b, 0) {
                        Ok(()) => {},
                        Err(e) => {
                            return Err(e);
                        },
                    }
                },
                Decl::Let(b) => {
                    match self.check_binding(b, 0) {
                        Ok(()) => {},
                        Err(e) => {
                            return Err(e);
                        },
                    }
                },
            }
            i += 1;
        }
        proof {
            assert(funcs_view(pending@) + Seq::<FuncDeclV>::empty() =~= funcs_view(pending@));
        }
        let ghost s2 = self@;
        let ghost all = funcs_view(pending@);

        while pending.len() > 0
            invariant
                self.wf(),
                check_rules::worklist(s2, all) == check_rules::worklist(
                    self@,
                    funcs_view(pending@),
                ),
            decreases pending.len(),
        {
            let ghost s3 = self@;
            let ghost pv = funcs_view(pending@);
            let ghost start = RoundV { deferred: Seq::empty(), progressed: false };
            let mut deferred: Vec<&FuncDecl> = Vec::new();
            let mut progressed = false;
            let mut j: usize = 0;
            proof {
                assert(funcs_view(deferred@) =~= Seq::<FuncDeclV>::empty());
            }
            while j < pending.len()
                invariant
                    j <= pending.len(),
                    self.wf(),
                    pv == funcs_view(pending@),
                    check_rules::round(s3, pv, 0, start) == check_rules::round(
                        self@,
                        pv,
                        j as int,
                        RoundV { deferred: funcs_view(deferred@), progressed },
                    ),
                decreases pending.len() - j,
            {
                let func = pending[j];
                match self.check_func(func) {
                    Ok(()) => {
                        progressed = true;
                    },
                    Err(TypeError::UnknownFuncReturn(_)) => {
                        proof {
                            assert(funcs_view(deferred@.push(func)) =~= funcs_view(
                                deferred@,
                            ).push(func@));
                        }
                        deferred.push(func);
                    },
                    Err(err) => {
                        return Err(err);
                    },
                }
                j += 1;
            }
            if !progressed {
                let unresolved = if deferred.len() > 0 {
                    deferred[0].name.0.clone()
                } else {
                    String::from_str("<unknown>")
                };
                return Err(TypeError::UnknownFuncReturn(unresolved));
            }
            proof {
                check_rules::lemma_round_progress(s3, pv, 0, start);
            }
            pending = deferred;
        }
        Ok(())
    }
}

} // verus!

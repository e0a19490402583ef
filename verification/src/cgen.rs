//! The C emitter: from syntax to C source text.
//!
//! Every function is proved to compute the rule of the same name in
//! [`crate::cgen_rules`].

use crate::ast::{
    exprs_view, field_inits_view, named, opt_type_view, params_view, same_type, stmts_view,
    BinaryOp, Binding, Decl, Expr, FieldType, FieldV, FuncDecl, Literal, Name,
    Param, Path, Program, Stmt, Type, TypeDecl, TypeV, UnaryOp,
};
use crate::cgen_rules;
use crate::cgen_rules::{CgenErrorV, CountersV, CtxV, Text};
use crate::lexer::lex_spec;
use crate::parse_rules;
use crate::parser::{error_text, Parser};
use crate::scopes::find_scope;
use crate::text::{path_to_string, str_eq};
use crate::typecheck::named_type;
use vstd::hash_map::StringHashMap;
use vstd::hash_set::StringHashSet;
use vstd::prelude::*;

verus! {

/// Why no C was written. `Fmt` and `UnknownIdent` are never given.
#[derive(Debug, PartialEq, Eq)]
pub enum CgenError {
    Parse(String),
    Unsupported(String),
    Fmt(String),
    UnknownIdent(String),
}

impl View for CgenError {
    type V = CgenErrorV;

    open spec fn view(&self) -> CgenErrorV {
        match self {
            CgenError::Parse(s) => CgenErrorV::Parse(s@),
            CgenError::Unsupported(s) => CgenErrorV::Unsupported(s@),
            CgenError::Fmt(s) => CgenErrorV::Fmt(s@),
            CgenError::UnknownIdent(s) => CgenErrorV::UnknownIdent(s@),
        }
    }
}

/// What the emitter keeps of a function.
pub struct FuncSig {
    pub ret: Option<Type>,
}

/// The numbers of the next temporary and the next scope.
pub struct Counters {
    pub tmp: usize,
    pub scope: usize,
}

impl View for Counters {
    type V = CountersV;

    open spec fn view(&self) -> CountersV {
        CountersV { tmp: self.tmp as nat, scope: self.scope as nat }
    }
}

/// The types and names that the emitter knows.
pub struct TypeCtx {
    types: StringHashMap<Type>,
    names: Vec<String>,
    funcs: StringHashMap<FuncSig>,
    scopes: Vec<StringHashMap<Type>>,
}

pub open spec fn types_view(m: Map<Name, Type>) -> Map<Name, TypeV> {
    m.map_values(|t: Type| t@)
}

pub open spec fn rets_view(m: Map<Name, FuncSig>) -> Map<Name, Option<TypeV>> {
    m.map_values(|s: FuncSig| opt_type_view(s.ret))
}

pub open spec fn names_view(v: Seq<String>) -> Seq<Name> {
    Seq::new(v.len(), |i: int| v[i]@)
}

pub open spec fn type_scopes_view(v: Seq<StringHashMap<Type>>) -> Seq<Map<Name, TypeV>> {
    Seq::new(v.len(), |i: int| types_view(v[i]@))
}

pub proof fn lemma_types_view_insert(m: Map<Name, Type>, k: Name, t: Type)
    ensures
        types_view(m.insert(k, t)) == types_view(m).insert(k, t@),
{
    assert(types_view(m.insert(k, t)) =~= types_view(m).insert(k, t@));
}

pub proof fn lemma_rets_view_insert(m: Map<Name, FuncSig>, k: Name, s: FuncSig)
    ensures
        rets_view(m.insert(k, s)) == rets_view(m).insert(k, opt_type_view(s.ret)),
{
    assert(rets_view(m.insert(k, s)) =~= rets_view(m).insert(k, opt_type_view(s.ret)));
}

impl View for TypeCtx {
    type V = CtxV;

    closed spec fn view(&self) -> CtxV {
        CtxV {
            types: types_view(self.types@),
            names: names_view(self.names@),
            funcs: rets_view(self.funcs@),
            scopes: type_scopes_view(self.scopes@),
        }
    }
}

/// The model of an optional text.
pub open spec fn opt_text(s: Option<&str>) -> Option<Text> {
    match s {
        Some(s) => Some(s@),
        None => None,
    }
}

/// The model of an optional name.
pub open spec fn opt_name(s: Option<String>) -> Option<Name> {
    match s {
        Some(s) => Some(s@),
        None => None,
    }
}

// ---------------------------------------------------------------------------
// Numbers
// ---------------------------------------------------------------------------
/// A number in decimal.
pub fn nat_to_string(n: u64) -> (r: String)
    ensures
        r@ == cgen_rules::nat_text(n as nat),
    decreases n,
{
    if n < 10 {
        let mut s = String::new();
        s.push((48u8 + n as u8) as char);
        assert(s@ =~= seq![cgen_rules::digit_char(n as nat)]);
        s
    } else {
        let mut s = nat_to_string(n / 10);
        s.push((48u8 + (n % 10) as u8) as char);
        s
    }
}

/// An integer in decimal.
pub fn int_to_string(i: i64) -> (r: String)
    ensures
        r@ == cgen_rules::int_text(i as int),
{
    if i < 0 {
        let magnitude: u64 = if i == i64::MIN {
            9223372036854775808u64
        } else {
            (-i) as u64
        };
        let mut s = String::from_str("-");
        proof {
            reveal_strlit("-");
            assert("-"@ =~= seq!['-']);
        }
        s.append(nat_to_string(magnitude).as_str());
        s
    } else {
        nat_to_string(i as u64)
    }
}

/// The innermost type under the references around `ty`.
fn strip_refs(ty: &Type) -> (r: &Type)
    ensures
        r@ == cgen_rules::strip_refs(ty@),
    decreases ty,
{
    match ty {
        Type::Ref(inner) => strip_refs(inner),
        _ => ty,
    }
}

/// The type of the first field called `name`.
fn find_field<'a>(fields: &'a Vec<FieldType>, name: &str, Ghost(fv): Ghost<Seq<FieldV>>) -> (r:
    Option<&'a Type>)
    requires
        fv.len() == fields.len(),
        forall|j: int| 0 <= j < fields.len() ==> fv[j] == fields@[j]@,
    ensures
        match r {
            Some(t) => cgen_rules::find_field(fv, name@) == Some(t@),
            None => cgen_rules::find_field(fv, name@) is None,
        },
{
    let mut i: usize = 0;
    proof {
        assert(fv.skip(0) =~= fv);
    }
    while i < fields.len()
        invariant
            i <= fields.len(),
            fv.len() == fields.len(),
            forall|j: int| 0 <= j < fields.len() ==> fv[j] == fields@[j]@,
            cgen_rules::find_field(fv, name@) == cgen_rules::find_field(fv.skip(i as int), name@),
        decreases fields.len() - i,
    {
        proof {
            assert(fv.skip(i as int).drop_first() =~= fv.skip(i + 1));
        }
        if str_eq(fields[i].name.0.as_str(), name) {
            return Some(&fields[i].ty);
        }
        i += 1;
    }
    None
}

fn is_builtin_name(name: &str) -> (r: bool)
    ensures
        r == cgen_rules::is_builtin_name(name@),
{
    str_eq(name, "i32") || str_eq(name, "i64") || str_eq(name, "u8") || str_eq(name, "bool")
        || str_eq(name, "Str") || str_eq(name, "Bytes") || str_eq(name, "Unit")
}

impl TypeCtx {
    /// What must hold of a context between calls: it knows finitely many
    /// type names.
    pub closed spec fn wf(&self) -> bool {
        self.types@.dom().finite()
    }

    fn push_scope(&mut self)
        requires
            old(self).wf(),
        ensures
            final(self).wf(),
            final(self)@ == cgen_rules::push_scope(old(self)@),
    {
        let scope: StringHashMap<Type> = StringHashMap::new();
        proof {
            assert(types_view(scope@) =~= Map::<Name, TypeV>::empty());
        }
        self.scopes.push(scope);
        proof {
            assert(type_scopes_view(self.scopes@) =~= type_scopes_view(old(self).scopes@).push(
                Map::empty(),
            ));
        }
    }

    fn pop_scope(&mut self)
        requires
            old(self).wf(),
        ensures
            final(self).wf(),
            final(self)@ == cgen_rules::pop_scope(old(self)@),
    {
        let _ = self.scopes.pop();
        proof {
            if old(self).scopes@.len() > 0 {
                assert(type_scopes_view(self.scopes@) =~= type_scopes_view(
                    old(self).scopes@,
                ).drop_last());
            }
        }
    }

    fn insert_var(&mut self, name: String, ty: Type)
        requires
            old(self).wf(),
        ensures
            final(self).wf(),
            final(self)@ == cgen_rules::insert_var(old(self)@, name@, ty@),
    {
        let n = self.scopes.len();
        if n > 0 {
            proof {
                lemma_types_view_insert(self.scopes@[n - 1]@, name@, ty);
            }
            self.scopes[n - 1].insert(name, ty);
            proof {
                let before = type_scopes_view(old(self).scopes@);
                assert(type_scopes_view(self.scopes@) =~= before.update(
                    n - 1,
                    before.last().insert(name@, ty@),
                ));
            }
        }
    }

    /// Follows type names, each once; `seen` holds those followed already.
    fn resolve_alias_in(&self, ty: &Type, seen: &mut StringHashSet) -> (r: Type)
        requires
            self.wf(),
        ensures
            r@ == cgen_rules::resolve_alias(
                self@,
                ty@,
                self@.types.dom().difference(old(seen)@),
            ),
        decreases self@.types.dom().difference(old(seen)@).len(), ty,
    {
        let ghost unseen = self@.types.dom().difference(old(seen)@);
        assert(self@.types.dom() =~= self.types@.dom());
        match ty {
            Type::Named(id) => {
                if seen.contains(id.0.as_str()) {
                    return ty.clone();
                }
                match self.types.get(id.0.as_str()) {
                    None => ty.clone(),
                    Some(t) => {
                        seen.insert(id.0.clone());
                        proof {
                            assert(self@.types.dom().difference(seen@) =~= unseen.remove(id@));
                        }
                        self.resolve_alias_in(t, seen)
                    },
                }
            },
            Type::Ref(inner) => Type::Ref(Box::new(self.resolve_alias_in(inner, seen))),
            Type::Record(_) => ty.clone(),
        }
    }

    /// What a type stands for.
    fn resolve_alias(&self, ty: &Type) -> (r: Type)
        requires
            self.wf(),
        ensures
            r@ == cgen_rules::resolved(self@, ty@),
    {
        let mut seen = StringHashSet::new();
        proof {
            assert(self@.types.dom().difference(seen@) =~= self@.types.dom());
        }
        self.resolve_alias_in(ty, &mut seen)
    }

    /// Whether a type stands for the builtin called `name`.
    fn is_named(&self, ty: &Type, name: &str) -> (r: bool)
        requires
            self.wf(),
        ensures
            r == cgen_rules::is_named(self@, ty@, name),
    {
        match self.resolve_alias(ty) {
            Type::Named(id) => str_eq(id.0.as_str(), name),
            _ => false,
        }
    }

    fn is_str(&self, ty: &Type) -> (r: bool)
        requires
            self.wf(),
        ensures
            r == cgen_rules::is_named(self@, ty@, "Str"),
    {
        self.is_named(ty, "Str")
    }

    fn is_bytes(&self, ty: &Type) -> (r: bool)
        requires
            self.wf(),
        ensures
            r == cgen_rules::is_named(self@, ty@, "Bytes"),
    {
        self.is_named(ty, "Bytes")
    }

    fn is_unit(&self, ty: &Type) -> (r: bool)
        requires
            self.wf(),
        ensures
            r == cgen_rules::is_named(self@, ty@, "Unit"),
    {
        self.is_named(ty, "Unit")
    }

    fn type_of_ident(&self, name: &str) -> (r: Option<Type>)
        ensures
            opt_type_view(r) == cgen_rules::type_of_ident(self@, name@),
    {
        let mut idx: usize = self.scopes.len();
        proof {
            assert(self@.scopes.take(idx as int) =~= self@.scopes);
        }
        while idx > 0
            invariant
                idx <= self.scopes.len(),
                find_scope(self@.scopes, name@) == find_scope(self@.scopes.take(idx as int), name@),
            decreases idx,
        {
            proof {
                assert(self@.scopes.take(idx as int).drop_last() =~= self@.scopes.take(idx - 1));
            }
            idx -= 1;
            match self.scopes[idx].get(name) {
                Some(t) => {
                    return Some(t.clone());
                },
                None => {},
            }
        }
        None
    }

    fn field_type(&self, ty: &Type, field: &str) -> (r: Option<Type>)
        requires
            self.wf(),
        ensures
            opt_type_view(r) == cgen_rules::field_type(self@, ty@, field@),
    {
        let resolved = self.resolve_alias(ty);
        match strip_refs(&resolved) {
            Type::Record(fields) => {
                let ghost fv = cgen_rules::strip_refs(resolved@)->Record_0;
                match find_field(fields, field, Ghost(fv)) {
                    Some(t) => Some(t.clone()),
                    None => None,
                }
            },
            _ => None,
        }
    }

    #[verifier::loop_isolation(false)]
    fn type_of_path(&self, path: &Path) -> (r: Option<Type>)
        requires
            self.wf(),
        ensures
            opt_type_view(r) == cgen_rules::type_of_path(self@, path@),
    {
        if path.0.len() == 0 {
            return None;
        }
        let mut ty = match self.type_of_ident(path.0[0].0.as_str()) {
            Some(t) => t,
            None => {
                return None;
            },
        };
        let ghost first = ty@;
        let mut i: usize = 1;
        while i < path.0.len()
            invariant
                1 <= i <= path.0.len(),
                cgen_rules::fields_type(self@, first, path@, 1) == cgen_rules::fields_type(
                    self@,
                    ty@,
                    path@,
                    i as int,
                ),
            decreases path.0.len() - i,
        {
            ty = match self.field_type(&ty, path.0[i].0.as_str()) {
                Some(t) => t,
                None => {
                    return None;
                },
            };
            i += 1;
        }
        Some(ty)
    }

    #[verifier::loop_isolation(false)]
    #[verifier::rlimit(40)]
    fn infer_expr_type(&mut self, expr: &Expr) -> (r: Option<Type>)
        requires
            old(self).wf(),
        ensures
            final(self).wf(),
            final(self)@ == old(self)@,
            opt_type_view(r) == cgen_rules::infer_expr_type(old(self)@, expr@),
        decreases expr, 0nat,
    {
        match expr {
            Expr::Literal(Literal::Int(_)) => Some(named_type("i32")),
            Expr::Literal(Literal::Bool(_)) => Some(named_type("bool")),
            Expr::Literal(Literal::Str(_)) => Some(named_type("Str")),
            Expr::Literal(Literal::Unit) => Some(named_type("Unit")),
            Expr::Path(p) => self.type_of_path(p),
            Expr::Copy(inner) => self.infer_expr_type(inner),
            Expr::Ref(inner) => match self.infer_expr_type(inner) {
                Some(t) => Some(Type::Ref(Box::new(t))),
                None => None,
            },
            Expr::FuncCall(fc) => {
                let name = path_to_string(&fc.callee);
                match self.funcs.get(name.as_str()) {
                    Some(f) => match &f.ret {
                        Some(t) => Some(t.clone()),
                        None => Some(named_type("Unit")),
                    },
                    None => None,
                }
            },
            Expr::If(ife) => {
                let then_ty = match self.infer_expr_type(&ife.then_branch) {
                    Some(t) => t,
                    None => {
                        return None;
                    },
                };
                let else_ty = match self.infer_expr_type(&ife.else_branch) {
                    Some(t) => t,
                    None => {
                        return None;
                    },
                };
                if same_type(&then_ty, &else_ty) {
                    Some(then_ty)
                } else {
                    Some(named_type("Unit"))
                }
            },
            Expr::Block(b) => Some(self.infer_block_type(b)),
            Expr::RecordLit(r) => {
                let ghost fv = field_inits_view(r.fields@);
                proof {
                    assert(expr@->RecordLit_0 =~= fv);
                }
                let mut fields: Vec<FieldType> = Vec::new();
                let ghost mut acc: Seq<FieldV> = Seq::empty();
                let mut i: usize = 0;
                while i < r.fields.len()
                    invariant
                        i <= r.fields.len(),
                        self.wf(),
                        self@ == old(self)@,
                        acc.len() == fields.len(),
                        forall|j: int| 0 <= j < fields.len() ==> acc[j] == fields@[j]@,
                        cgen_rules::infer_fields(old(self)@, fv, 0, Seq::empty())
                            == cgen_rules::infer_fields(old(self)@, fv, i as int, acc),
                    decreases r.fields.len() - i,
                {
                    let f = &r.fields[i];
                    let ty = match self.infer_expr_type(&f.value) {
                        Some(t) => t,
                        None => named_type("Unit"),
                    };
                    let nf = FieldType { name: f.name.clone(), ty };
                    proof {
                        acc = acc.push(nf@);
                    }
                    fields.push(nf);
                    i += 1;
                }
                let t = Type::Record(fields);
                proof {
                    assert(t@->Record_0 =~= acc);
                }
                Some(t)
            },
            Expr::Unary(u) => match u.op {
                UnaryOp::Neg => Some(named_type("i32")),
                UnaryOp::Not => Some(named_type("bool")),
            },
            Expr::Binary(b) => {
                let lhs = match self.infer_expr_type(&b.left) {
                    Some(t) => t,
                    None => {
                        return None;
                    },
                };
                let rhs = match self.infer_expr_type(&b.right) {
                    Some(t) => t,
                    None => {
                        return None;
                    },
                };
                match b.op {
                    BinaryOp::Lt | BinaryOp::Eq | BinaryOp::And | BinaryOp::Or => Some(
                        named_type("bool"),
                    ),
                    BinaryOp::Add => {
                        if self.is_str(&lhs) || self.is_str(&rhs) {
                            Some(named_type("Str"))
                        } else {
                            Some(lhs)
                        }
                    },
                    _ => Some(lhs),
                }
            },
        }
    }

    #[verifier::loop_isolation(false)]
    #[verifier::rlimit(40)]
    fn infer_block_type(&mut self, block: &crate::ast::Block) -> (r: Type)
        requires
            old(self).wf(),
        ensures
            final(self).wf(),
            final(self)@ == old(self)@,
            r@ == cgen_rules::infer_block_type(old(self)@, block@),
        decreases block, 0nat,
    {
        self.push_scope();
        let ghost sv = block@.stmts;
        let mut i: usize = 0;
        while i < block.stmts.len()
            invariant
                i <= block.stmts.len(),
                self.wf(),
                self@.scopes.len() == old(self)@.scopes.len() + 1,
                self@ == (CtxV {
                    scopes: old(self)@.scopes.push(self@.scopes.last()),
                    ..old(self)@
                }),
                cgen_rules::block_bindings(Map::empty(), sv, 0) == cgen_rules::block_bindings(
                    self@.scopes.last(),
                    sv,
                    i as int,
                ),
            decreases block.stmts.len() - i,
        {
            match &block.stmts[i] {
                Stmt::Binding(b) => {
                    let ghost before = self@;
                    self.insert_var(b.name.0.clone(), b.ty.clone());
                    proof {
                        assert(self@.scopes =~= old(self)@.scopes.push(self@.scopes.last()));
                        assert(sv[i as int] == block.stmts@[i as int]@);
                        assert(sv[i as int] == crate::ast::StmtV::Binding(b@));
                        assert(self@.scopes.last() == before.scopes.last().insert(b.name@, b.ty@));
                    }
                },
                _ => {},
            }
            i += 1;
        }
        let r = match &block.tail {
            Some(e) => match self.infer_expr_type(e) {
                Some(t) => t,
                None => named_type("Unit"),
            },
            None => named_type("Unit"),
        };
        self.pop_scope();
        proof {
            assert(self@.scopes =~= old(self)@.scopes);
        }
        r
    }

    /// Declares the parameters in the innermost scope.
    #[verifier::loop_isolation(false)]
    fn bind_params(&mut self, params: &Vec<Param>)
        requires
            old(self).wf(),
        ensures
            final(self).wf(),
            final(self)@ == cgen_rules::bind_params(old(self)@, params_view(params@), 0),
    {
        let ghost pv = params_view(params@);
        let mut i: usize = 0;
        while i < params.len()
            invariant
                i <= params.len(),
                self.wf(),
                cgen_rules::bind_params(old(self)@, pv, 0) == cgen_rules::bind_params(
                    self@,
                    pv,
                    i as int,
                ),
            decreases params.len() - i,
        {
            self.insert_var(params[i].name.0.clone(), params[i].ty.clone());
            i += 1;
        }
    }
}

// ---------------------------------------------------------------------------
// The C names of types
// ---------------------------------------------------------------------------
fn c_name(id: &str, unit: Option<&'static str>) -> (r: String)
    ensures
        r@ == cgen_rules::c_name(id@, unit),
{
    if str_eq(id, "i32") {
        String::from_str("int32_t")
    } else if str_eq(id, "i64") {
        String::from_str("int64_t")
    } else if str_eq(id, "u8") {
        String::from_str("uint8_t")
    } else if str_eq(id, "bool") {
        String::from_str("bool")
    } else if str_eq(id, "Str") {
        String::from_str("char*")
    } else if str_eq(id, "Bytes") {
        String::from_str("gaut_bytes")
    } else {
        match unit {
            Some(u) => if str_eq(id, "Unit") {
                String::from_str(u)
            } else {
                String::from_str(id)
            },
            None => String::from_str(id),
        }
    }
}

/// Appends the members of a C struct for the fields.
#[verifier::loop_isolation(false)]
fn map_fields(fields: &Vec<FieldType>, out: &mut String, Ghost(fv): Ghost<Seq<FieldV>>)
    requires
        fv.len() == fields.len(),
        forall|j: int| 0 <= j < fields.len() ==> fv[j] == fields@[j]@,
    ensures
        final(out)@ == cgen_rules::map_fields(fv, 0, old(out)@),
    decreases fields, 1nat,
{
    let mut i: usize = 0;
    while i < fields.len()
        invariant
            i <= fields.len(),
            cgen_rules::map_fields(fv, 0, old(out)@) == cgen_rules::map_fields(fv, i as int, out@),
        decreases fields.len() - i,
    {
        let f = &fields[i];
        let cty = map_type(&f.ty);
        out.append("  ");
        out.append(cty.as_str());
        out.append(" ");
        out.append(f.name.0.as_str());
        out.append(";\n");
        i += 1;
    }
}

/// The C type for what a function returns.
fn map_type(ty: &Type) -> (r: String)
    ensures
        r@ == cgen_rules::map_type(ty@),
    decreases ty, 0nat,
{
    match ty {
        Type::Named(id) => c_name(id.0.as_str(), Some("void")),
        Type::Ref(inner) => {
            let mut s = map_type(inner);
            s.append("*");
            s
        },
        Type::Record(fields) => {
            let mut tmp = String::from_str("struct {\n");
            map_fields(fields, &mut tmp, Ghost(ty@->Record_0));
            tmp.append("}");
            tmp
        },
    }
}

#[verifier::loop_isolation(false)]
fn map_value_fields(
    fields: &Vec<FieldType>,
    ctx: &TypeCtx,
    out: &mut String,
    Ghost(fv): Ghost<Seq<FieldV>>,
)
    requires
        ctx.wf(),
        fv.len() == fields.len(),
        forall|j: int| 0 <= j < fields.len() ==> fv[j] == fields@[j]@,
    ensures
        final(out)@ == cgen_rules::map_value_fields(ctx@, fv, 0, old(out)@),
    decreases fields, 1nat,
{
    let mut i: usize = 0;
    while i < fields.len()
        invariant
            i <= fields.len(),
            cgen_rules::map_value_fields(ctx@, fv, 0, old(out)@) == cgen_rules::map_value_fields(
                ctx@,
                fv,
                i as int,
                out@,
            ),
        decreases fields.len() - i,
    {
        let f = &fields[i];
        let cty = map_value_type(&f.ty, ctx);
        out.append("  ");
        out.append(cty.as_str());
        out.append(" ");
        out.append(f.name.0.as_str());
        out.append(";\n");
        i += 1;
    }
}

/// The C type for a value.
fn map_value_type(ty: &Type, ctx: &TypeCtx) -> (r: String)
    requires
        ctx.wf(),
    ensures
        r@ == cgen_rules::map_value_type(ctx@, ty@),
    decreases ty, 0nat,
{
    match ty {
        Type::Named(id) => {
            if ctx.is_unit(ty) {
                String::from_str("int")
            } else {
                c_name(id.0.as_str(), None)
            }
        },
        Type::Ref(inner) => {
            let mut s = map_value_type(inner, ctx);
            s.append("*");
            s
        },
        Type::Record(fields) => {
            let mut tmp = String::from_str("struct {\n");
            map_value_fields(fields, ctx, &mut tmp, Ghost(ty@->Record_0));
            tmp.append("}");
            tmp
        },
    }
}

/// Whether two lists of fields have the same names in the same order, and
/// types that stand for the same.
#[verifier::loop_isolation(false)]
fn same_fields(ctx: &TypeCtx, a: &Vec<FieldType>, b: &Vec<FieldType>, Ghost(av): Ghost<
    Seq<FieldV>,
>, Ghost(bv): Ghost<Seq<FieldV>>) -> (r: bool)
    requires
        ctx.wf(),
        av.len() == a.len(),
        forall|j: int| 0 <= j < a.len() ==> av[j] == a@[j]@,
        bv.len() == b.len(),
        forall|j: int| 0 <= j < b.len() ==> bv[j] == b@[j]@,
    ensures
        r == cgen_rules::same_fields(ctx@, av, bv),
{
    if a.len() != b.len() {
        return false;
    }
    let mut i: usize = 0;
    while i < a.len()
        invariant
            i <= a.len(),
            forall|j: int|
                0 <= j < i ==> (#[trigger] av[j]).name == bv[j].name && cgen_rules::resolved(
                    ctx@,
                    av[j].ty,
                ) == cgen_rules::resolved(ctx@, bv[j].ty),
        decreases a.len() - i,
    {
        let same_name = a[i].name.0 == b[i].name.0;
        if !same_name || !same_type(&ctx.resolve_alias(&a[i].ty), &ctx.resolve_alias(&b[i].ty)) {
            proof {
                // field `i` is where the two lists differ
                assert(av[i as int].name != bv[i as int].name || cgen_rules::resolved(
                    ctx@,
                    av[i as int].ty,
                ) != cgen_rules::resolved(ctx@, bv[i as int].ty));
            }
            return false;
        }
        i += 1;
    }
    true
}

/// The name of a declared record type that a type stands for.
#[verifier::loop_isolation(false)]
#[verifier::rlimit(40)]
fn find_record_alias(ctx: &TypeCtx, ty: &Type) -> (r: Option<String>)
    requires
        ctx.wf(),
    ensures
        opt_name(r) == cgen_rules::find_record_alias(ctx@, ty@),
{
    let resolved = ctx.resolve_alias(ty);
    let fields = match &resolved {
        Type::Record(fields) => fields,
        _ => {
            return None;
        },
    };
    let ghost fv = resolved@->Record_0;
    let mut i: usize = 0;
    while i < ctx.names.len()
        invariant
            i <= ctx.names.len(),
            cgen_rules::first_alias(ctx@, fv, 0) == cgen_rules::first_alias(ctx@, fv, i as int),
        decreases ctx.names.len() - i,
    {
        let name = &ctx.names[i];
        proof {
            assert(ctx@.names[i as int] == name@);
        }
        if !is_builtin_name(name.as_str()) {
            match ctx.types.get(name.as_str()) {
                Some(aliased) => {
                    let other = ctx.resolve_alias(aliased);
                    match &other {
                        Type::Record(alias_fields) => {
                            if same_fields(
                                ctx,
                                fields,
                                alias_fields,
                                Ghost(fv),
                                Ghost(other@->Record_0),
                            ) {
                                return Some(name.clone());
                            }
                        },
                        _ => {},
                    }
                },
                None => {},
            }
        }
        i += 1;
    }
    None
}

// ---------------------------------------------------------------------------
// Expressions
// ---------------------------------------------------------------------------
/// The text and the counters are what the rule gives, or the error is.
pub open spec fn emitted(
    r: Result<(), CgenError>,
    out: Text,
    ctrs: CountersV,
    want: cgen_rules::Emitted,
) -> bool {
    match want {
        Ok((o, c)) => r is Ok && out == o && ctrs == c,
        Err(e) => r matches Err(x) && x@ == e,
    }
}

/// The text is what the rule gives, or the error is.
pub open spec fn written(r: Result<(), CgenError>, out: Text, want: Result<Text, CgenErrorV>) -> bool {
    match want {
        Ok(o) => r is Ok && out == o,
        Err(e) => r matches Err(x) && x@ == e,
    }
}

/// The model of an optional expression.
pub open spec fn opt_expr_view(e: Option<&Expr>) -> Option<crate::ast::ExprV> {
    match e {
        Some(e) => Some(e@),
        None => None,
    }
}

/// Two spaces for each level of indentation.
fn pad(indent: usize) -> (r: String)
    ensures
        r@ == cgen_rules::pad(indent as nat),
{
    let mut s = String::new();
    let mut i: usize = 0;
    while i < indent
        invariant
            i <= indent,
            s@ == cgen_rules::pad(i as nat),
        decreases indent - i,
    {
        s.append("  ");
        i += 1;
    }
    s
}

/// The next number of a counter.
fn bump(n: usize) -> (r: Result<usize, CgenError>)
    ensures
        match cgen_rules::bump(n as nat) {
            Ok(m) => r == Ok::<usize, CgenError>(m as usize) && m <= usize::MAX,
            Err(e) => r matches Err(x) && x@ == e,
        },
{
    if n < usize::MAX {
        Ok(n + 1)
    } else {
        Err(CgenError::Unsupported(String::from_str("too many temporaries")))
    }
}

/// Appends the segments of a path joined by dots.
#[verifier::loop_isolation(false)]
fn emit_plain_path(path: &Path, out: &mut String)
    ensures
        final(out)@ == cgen_rules::plain_path(old(out)@, path@, 0),
{
    let mut i: usize = 0;
    while i < path.0.len()
        invariant
            i <= path.0.len(),
            cgen_rules::plain_path(old(out)@, path@, 0) == cgen_rules::plain_path(
                out@,
                path@,
                i as int,
            ),
        decreases path.0.len() - i,
    {
        if i > 0 {
            out.append(".");
        }
        out.append(path.0[i].0.as_str());
        i += 1;
    }
}

/// Appends a path.
#[verifier::loop_isolation(false)]
#[verifier::rlimit(40)]
fn emit_path(path: &Path, out: &mut String, ctx: Option<&TypeCtx>)
    requires
        ctx matches Some(c) ==> c.wf(),
    ensures
        final(out)@ == cgen_rules::emit_path(
            old(out)@,
            match ctx {
                Some(c) => Some(c@),
                None => None,
            },
            path@,
        ),
{
    match ctx {
        Some(tc) => {
            if path.0.len() == 0 {
                emit_plain_path(path, out);
                return ;
            }
            let head = &path.0[0];
            let mut current = tc.type_of_ident(head.0.as_str());
            out.append(head.0.as_str());
            let mut i: usize = 1;
            while i < path.0.len()
                invariant
                    1 <= i <= path.0.len(),
                    cgen_rules::emit_path(old(out)@, Some(tc@), path@) == cgen_rules::typed_fields(
                        out@,
                        tc@,
                        opt_type_view(current),
                        path@,
                        i as int,
                    ),
                decreases path.0.len() - i,
            {
                let field = &path.0[i];
                current = match current {
                    Some(ty) => {
                        let resolved = tc.resolve_alias(&ty);
                        match resolved {
                            Type::Ref(inner) => {
                                out.append("->");
                                out.append(field.0.as_str());
                                tc.field_type(&inner, field.0.as_str())
                            },
                            _ => {
                                out.append(".");
                                out.append(field.0.as_str());
                                tc.field_type(&ty, field.0.as_str())
                            },
                        }
                    },
                    None => {
                        out.append(".");
                        out.append(field.0.as_str());
                        None
                    },
                };
                i += 1;
            }
        },
        None => {
            emit_plain_path(path, out);
        },
    }
}

fn op_text(op: BinaryOp) -> (r: &'static str)
    ensures
        r@ == cgen_rules::op_text(op),
{
    match op {
        BinaryOp::Add => "+",
        BinaryOp::Sub => "-",
        BinaryOp::Mul => "*",
        BinaryOp::Div => "/",
        BinaryOp::Lt => "<",
        BinaryOp::Eq => "==",
        BinaryOp::And => "&&",
        BinaryOp::Or => "||",
    }
}

fn concat_fn(bytes: bool, in_arena: bool) -> (r: &'static str)
    ensures
        r@ == cgen_rules::concat_fn(bytes, in_arena),
{
    if bytes {
        if in_arena {
            "gaut_bytes_concat_arena"
        } else {
            "gaut_bytes_concat_heap"
        }
    } else {
        if in_arena {
            "gaut_str_concat_arena"
        } else {
            "gaut_str_concat_heap"
        }
    }
}

/// Which joining function a binary expression needs.
fn concat_kind(ctx: &mut TypeCtx, expr: &Expr) -> (r: Option<bool>)
    requires
        old(ctx).wf(),
    ensures
        final(ctx).wf(),
        final(ctx)@ == old(ctx)@,
        r == cgen_rules::concat_kind(old(ctx)@, expr@),
{
    match expr {
        Expr::Binary(b) => {
            let ty = ctx.infer_expr_type(expr);
            match ty {
                Some(t) => match b.op {
                    BinaryOp::Add => {
                        if ctx.is_str(&t) {
                            Some(false)
                        } else if ctx.is_bytes(&t) {
                            Some(true)
                        } else {
                            None
                        }
                    },
                    _ => None,
                },
                None => None,
            }
        },
        _ => None,
    }
}

/// The C name of the type of a record literal.
fn record_c_type(ctx: &mut TypeCtx, expr: &Expr) -> (r: String)
    requires
        old(ctx).wf(),
    ensures
        final(ctx).wf(),
        final(ctx)@ == old(ctx)@,
        r@ == cgen_rules::record_c_type(old(ctx)@, expr@),
{
    let ty = match ctx.infer_expr_type(expr) {
        Some(t) => t,
        None => {
            let t = Type::Record(Vec::new());
            proof {
                assert(t@->Record_0 =~= Seq::<FieldV>::empty());
            }
            t
        },
    };
    match find_record_alias(ctx, &ty) {
        Some(name) => name,
        None => map_value_type(&ty, ctx),
    }
}

/// Opens the scope of a block in the arena, if there is one.
fn enter_scope(out: &mut String, lead: &str, arena: Option<&str>, ctrs: &mut Counters, end: &str) -> (r:
    Result<Option<String>, CgenError>)
    ensures
        match cgen_rules::enter_scope(old(out)@, lead@, opt_text(arena), old(ctrs)@, end@) {
            Ok((o, name, c)) => r matches Ok(n) && opt_name(n) == name && final(out)@ == o
                && final(ctrs)@ == c,
            Err(e) => r matches Err(x) && x@ == e,
        },
{
    match arena {
        Some(a) => {
            let number = ctrs.scope;
            ctrs.scope = match bump(ctrs.scope) {
                Ok(n) => n,
                Err(e) => {
                    return Err(e);
                },
            };
            let mut name = String::from_str("__scope");
            name.append(nat_to_string(number as u64).as_str());
            out.append(lead);
            out.append("gaut_scope ");
            out.append(name.as_str());
            out.append(" = gaut_scope_enter(&");
            out.append(a);
            out.append(end);
            Ok(Some(name))
        },
        None => Ok(None),
    }
}

/// Closes the scope of a block, if there is one.
fn leave_scope(out: &mut String, lead: &str, arena: Option<&str>, scope: &Option<String>, end: &str)
    ensures
        final(out)@ == cgen_rules::leave_scope(
            old(out)@,
            lead@,
            opt_text(arena),
            opt_name(*scope),
            end@,
        ),
{
    match (arena, scope) {
        (Some(a), Some(s)) => {
            out.append(lead);
            out.append("gaut_scope_leave(&");
            out.append(a);
            out.append(", ");
            out.append(s.as_str());
            out.append(end);
        },
        _ => {},
    }
}

#[verifier::loop_isolation(false)]
#[verifier::rlimit(40)]
fn emit_expr(
    expr: &Expr,
    out: &mut String,
    ctx: &mut TypeCtx,
    arena: Option<&str>,
    ctrs: &mut Counters,
) -> (r: Result<(), CgenError>)
    requires
        old(ctx).wf(),
    ensures
        final(ctx).wf(),
        r is Ok ==> final(ctx)@ == old(ctx)@,
        emitted(
            r,
            final(out)@,
            final(ctrs)@,
            cgen_rules::emit_expr(old(ctx)@, old(out)@, expr@, opt_text(arena), old(ctrs)@),
        ),
    decreases expr, 0nat,
{
    match expr {
        Expr::Literal(l) => {
            match l {
                Literal::Int(i) => {
                    out.append(int_to_string(*i).as_str());
                },
                Literal::Bool(b) => {
                    if *b {
                        out.append("true");
                    } else {
                        out.append("false");
                    }
                },
                Literal::Str(s) => {
                    out.append("\"");
                    out.append(s.as_str());
                    out.append("\"");
                },
                Literal::Unit => {
                    out.append("0");
                },
            }
            Ok(())
        },
        Expr::Path(p) => {
            emit_path(p, out, Some(&*ctx));
            Ok(())
        },
        Expr::Copy(inner) => emit_expr(inner, out, ctx, arena, ctrs),
        Expr::Ref(inner) => {
            out.append("&");
            emit_expr(inner, out, ctx, arena, ctrs)
        },
        Expr::FuncCall(fc) => {
            proof {
                assert(expr@->FuncCall_args =~= exprs_view(fc.args@));
            }
            emit_path(&fc.callee, out, None);
            out.append("(");
            let ghost av = exprs_view(fc.args@);
            let ghost o0 = out@;
            let mut i: usize = 0;
            while i < fc.args.len()
                invariant
                    i <= fc.args.len(),
                    ctx.wf(),
                    ctx@ == old(ctx)@,
                    cgen_rules::emit_args(old(ctx)@, o0, av, 0, opt_text(arena), old(ctrs)@)
                        == cgen_rules::emit_args(
                        old(ctx)@,
                        out@,
                        av,
                        i as int,
                        opt_text(arena),
                        ctrs@,
                    ),
                decreases fc.args.len() - i,
            {
                if i > 0 {
                    out.append(", ");
                }
                match emit_expr(&fc.args[i], out, ctx, arena, ctrs) {
                    Ok(()) => {},
                    Err(e) => {
                        return Err(e);
                    },
                }
                i += 1;
            }
            out.append(")");
            Ok(())
        },
        Expr::If(ife) => {
            out.append("(");
            match emit_expr(&ife.cond, out, ctx, arena, ctrs) {
                Ok(()) => {},
                Err(e) => {
                    return Err(e);
                },
            }
            out.append(" ? ");
            match emit_expr(&ife.then_branch, out, ctx, arena, ctrs) {
                Ok(()) => {},
                Err(e) => {
                    return Err(e);
                },
            }
            out.append(" : ");
            match emit_expr(&ife.else_branch, out, ctx, arena, ctrs) {
                Ok(()) => {},
                Err(e) => {
                    return Err(e);
                },
            }
            out.append(")");
            Ok(())
        },
        Expr::Block(b) => emit_block_expr(b, out, ctx, arena, ctrs),
        Expr::RecordLit(r) => {
            let ghost fv = field_inits_view(r.fields@);
            proof {
                assert(expr@->RecordLit_0 =~= fv);
            }
            let cty = record_c_type(ctx, expr);
            out.append("(");
            out.append(cty.as_str());
            out.append("){ ");
            let ghost o0 = out@;
            let mut i: usize = 0;
            while i < r.fields.len()
                invariant
                    i <= r.fields.len(),
                    ctx.wf(),
                    ctx@ == old(ctx)@,
                    cgen_rules::emit_inits(old(ctx)@, o0, fv, 0, opt_text(arena), old(ctrs)@)
                        == cgen_rules::emit_inits(
                        old(ctx)@,
                        out@,
                        fv,
                        i as int,
                        opt_text(arena),
                        ctrs@,
                    ),
                decreases r.fields.len() - i,
            {
                let f = &r.fields[i];
                if i > 0 {
                    out.append(", ");
                }
                out.append(".");
                out.append(f.name.0.as_str());
                out.append(" = ");
                match emit_expr(&f.value, out, ctx, arena, ctrs) {
                    Ok(()) => {},
                    Err(e) => {
                        return Err(e);
                    },
                }
                i += 1;
            }
            out.append(" }");
            Ok(())
        },
        Expr::Unary(u) => {
            match u.op {
                UnaryOp::Neg => {
                    out.append("-");
                },
                UnaryOp::Not => {
                    out.append("!");
                },
            }
            emit_expr(&u.expr, out, ctx, arena, ctrs)
        },
        Expr::Binary(b) => {
            match concat_kind(ctx, expr) {
                Some(bytes) => {
                    match arena {
                        Some(a) => {
                            out.append(concat_fn(bytes, true));
                            out.append("(&");
                            out.append(a);
                            out.append(", ");
                        },
                        None => {
                            out.append(concat_fn(bytes, false));
                            out.append("(");
                        },
                    }
                    match emit_expr(&b.left, out, ctx, arena, ctrs) {
                        Ok(()) => {},
                        Err(e) => {
                            return Err(e);
                        },
                    }
                    out.append(", ");
                    match emit_expr(&b.right, out, ctx, arena, ctrs) {
                        Ok(()) => {},
                        Err(e) => {
                            return Err(e);
                        },
                    }
                    out.append(")");
                    Ok(())
                },
                None => {
                    match emit_expr(&b.left, out, ctx, arena, ctrs) {
                        Ok(()) => {},
                        Err(e) => {
                            return Err(e);
                        },
                    }
                    out.append(" ");
                    out.append(op_text(b.op));
                    out.append(" ");
                    emit_expr(&b.right, out, ctx, arena, ctrs)
                },
            }
        },
    }
}

/// Only the innermost scope may differ between the two.
pub open spec fn same_but_last(a: CtxV, b: CtxV) -> bool {
    &&& a.types == b.types
    &&& a.names == b.names
    &&& a.funcs == b.funcs
    &&& a.scopes.len() == b.scopes.len()
    &&& a.scopes.len() > 0 ==> a.scopes.drop_last() == b.scopes.drop_last()
}

/// A declaration changes only the innermost scope.
pub proof fn lemma_insert_var_frame(ctx: CtxV, name: Name, ty: TypeV)
    ensures
        same_but_last(ctx, cgen_rules::insert_var(ctx, name, ty)),
{
    if ctx.scopes.len() > 0 {
        assert(cgen_rules::insert_var(ctx, name, ty).scopes.drop_last() =~= ctx.scopes.drop_last());
    }
}

/// Statements change only the innermost scope.
pub proof fn lemma_emit_stmts_frame(
    ctx: CtxV,
    out: Text,
    stmts: Seq<crate::ast::StmtV>,
    i: int,
    indent: nat,
    arena: Option<Text>,
    ctrs: CountersV,
)
    ensures
        cgen_rules::emit_stmts(ctx, out, stmts, i, indent, arena, ctrs) matches Ok((_, c2, _))
            ==> same_but_last(ctx, c2),
    decreases stmts.len() - i,
{
    if 0 <= i < stmts.len() {
        match cgen_rules::emit_stmt(ctx, out, stmts[i], indent, arena, ctrs) {
            Err(_) => {},
            Ok((o, c2, k)) => {
                match stmts[i] {
                    crate::ast::StmtV::Binding(b) => {
                        lemma_insert_var_frame(ctx, b.name, b.ty);
                    },
                    _ => {},
                }
                lemma_emit_stmts_frame(c2, o, stmts, i + 1, indent, arena, k);
            },
        }
    }
}

/// Parameters change only the innermost scope.
pub proof fn lemma_bind_params_frame(ctx: CtxV, params: Seq<crate::ast::ParamV>, i: int)
    ensures
        same_but_last(ctx, cgen_rules::bind_params(ctx, params, i)),
    decreases params.len() - i,
{
    if 0 <= i < params.len() {
        lemma_insert_var_frame(ctx, params[i].name, params[i].ty);
        lemma_bind_params_frame(
            cgen_rules::insert_var(ctx, params[i].name, params[i].ty),
            params,
            i + 1,
        );
    }
}

/// Closing the scope that was opened for them undoes what statements or
/// parameters declared.
pub proof fn lemma_pop_restores(ctx: CtxV, after: CtxV)
    requires
        same_but_last(cgen_rules::push_scope(ctx), after),
    ensures
        cgen_rules::pop_scope(after) == ctx,
{
    assert(cgen_rules::push_scope(ctx).scopes.drop_last() =~= ctx.scopes);
    assert(cgen_rules::pop_scope(after).scopes =~= ctx.scopes);
}

/// The text, the declared types and the counters are what the rule gives,
/// or the error is.
pub open spec fn emitted_stmt(
    r: Result<(), CgenError>,
    out: Text,
    ctx: CtxV,
    ctrs: CountersV,
    want: cgen_rules::EmittedStmt,
) -> bool {
    match want {
        Ok((o, c, k)) => r is Ok && out == o && ctx == c && ctrs == k,
        Err(e) => r matches Err(x) && x@ == e,
    }
}

#[verifier::rlimit(40)]
fn emit_block_expr(
    block: &crate::ast::Block,
    out: &mut String,
    ctx: &mut TypeCtx,
    arena: Option<&str>,
    ctrs: &mut Counters,
) -> (r: Result<(), CgenError>)
    requires
        old(ctx).wf(),
    ensures
        final(ctx).wf(),
        r is Ok ==> final(ctx)@ == old(ctx)@,
        emitted(
            r,
            final(out)@,
            final(ctrs)@,
            cgen_rules::emit_block_expr(
                old(ctx)@,
                old(out)@,
                block@,
                opt_text(arena),
                old(ctrs)@,
            ),
        ),
    decreases block, 1nat,
{
    let ty = ctx.infer_block_type(block);
    let number = ctrs.tmp;
    ctrs.tmp = match bump(ctrs.tmp) {
        Ok(n) => n,
        Err(e) => {
            return Err(e);
        },
    };
    let mut tmp = String::from_str("__tmp");
    tmp.append(nat_to_string(number as u64).as_str());
    out.append("({ ");
    ctx.push_scope();
    proof {
        reveal_strlit("");
        assert(""@ =~= Seq::<char>::empty());
        assert(stmts_view(block.stmts@) =~= block@.stmts);
    }
    let scope_name = match enter_scope(out, "", arena, ctrs, "); ") {
        Ok(n) => n,
        Err(e) => {
            return Err(e);
        },
    };
    let ghost o1 = out@;
    let ghost c1 = ctrs@;
    match emit_stmts(&block.stmts, out, ctx, 0, arena, ctrs) {
        Ok(()) => {},
        Err(e) => {
            return Err(e);
        },
    }
    proof {
        lemma_emit_stmts_frame(
            cgen_rules::push_scope(old(ctx)@),
            o1,
            block@.stmts,
            0,
            0,
            opt_text(arena),
            c1,
        );
        lemma_pop_restores(old(ctx)@, ctx@);
    }
    let cty = map_value_type(&ty, ctx);
    out.append(cty.as_str());
    out.append(" ");
    out.append(tmp.as_str());
    match &block.tail {
        Some(tail) => {
            out.append(" = ");
            match emit_expr(tail, out, ctx, arena, ctrs) {
                Ok(()) => {},
                Err(e) => {
                    return Err(e);
                },
            }
            out.append("; ");
        },
        None => {
            out.append(" = 0; ");
        },
    }
    leave_scope(out, "", arena, &scope_name, "); ");
    ctx.pop_scope();
    out.append(tmp.as_str());
    out.append("; })");
    Ok(())
}

#[verifier::rlimit(40)]
fn emit_stmt(
    stmt: &Stmt,
    out: &mut String,
    ctx: &mut TypeCtx,
    indent: usize,
    arena: Option<&str>,
    ctrs: &mut Counters,
) -> (r: Result<(), CgenError>)
    requires
        old(ctx).wf(),
    ensures
        final(ctx).wf(),
        emitted_stmt(
            r,
            final(out)@,
            final(ctx)@,
            final(ctrs)@,
            cgen_rules::emit_stmt(
                old(ctx)@,
                old(out)@,
                stmt@,
                indent as nat,
                opt_text(arena),
                old(ctrs)@,
            ),
        ),
    decreases stmt, 0nat,
{
    let pad = pad(indent);
    match stmt {
        Stmt::Binding(b) => {
            let cty = map_value_type(&b.ty, ctx);
            out.append(pad.as_str());
            out.append(cty.as_str());
            out.append(" ");
            out.append(b.name.0.as_str());
            out.append(" = ");
            match emit_expr(&b.value, out, ctx, arena, ctrs) {
                Ok(()) => {},
                Err(e) => {
                    return Err(e);
                },
            }
            out.append(";\n");
            ctx.insert_var(b.name.0.clone(), b.ty.clone());
        },
        Stmt::Assign(a) => {
            out.append(pad.as_str());
            emit_path(&a.target, out, Some(&*ctx));
            out.append(" = ");
            match emit_expr(&a.value, out, ctx, arena, ctrs) {
                Ok(()) => {},
                Err(e) => {
                    return Err(e);
                },
            }
            out.append(";\n");
        },
        Stmt::Expr(e) => {
            out.append(pad.as_str());
            match emit_expr(e, out, ctx, arena, ctrs) {
                Ok(()) => {},
                Err(e) => {
                    return Err(e);
                },
            }
            out.append(";\n");
        },
    }
    Ok(())
}

#[verifier::loop_isolation(false)]
fn emit_stmts(
    stmts: &Vec<Stmt>,
    out: &mut String,
    ctx: &mut TypeCtx,
    indent: usize,
    arena: Option<&str>,
    ctrs: &mut Counters,
) -> (r: Result<(), CgenError>)
    requires
        old(ctx).wf(),
    ensures
        final(ctx).wf(),
        emitted_stmt(
            r,
            final(out)@,
            final(ctx)@,
            final(ctrs)@,
            cgen_rules::emit_stmts(
                old(ctx)@,
                old(out)@,
                stmts_view(stmts@),
                0,
                indent as nat,
                opt_text(arena),
                old(ctrs)@,
            ),
        ),
    decreases stmts, 0nat,
{
    let ghost sv = stmts_view(stmts@);
    let mut i: usize = 0;
    while i < stmts.len()
        invariant
            i <= stmts.len(),
            ctx.wf(),
            cgen_rules::emit_stmts(
                old(ctx)@,
                old(out)@,
                sv,
                0,
                indent as nat,
                opt_text(arena),
                old(ctrs)@,
            ) == cgen_rules::emit_stmts(
                ctx@,
                out@,
                sv,
                i as int,
                indent as nat,
                opt_text(arena),
                ctrs@,
            ),
        decreases stmts.len() - i,
    {
        match emit_stmt(&stmts[i], out, ctx, indent, arena, ctrs) {
            Ok(()) => {},
            Err(e) => {
                return Err(e);
            },
        }
        i += 1;
    }
    Ok(())
}

// ---------------------------------------------------------------------------
// Functions
// ---------------------------------------------------------------------------
/// The body of a function.
#[verifier::rlimit(40)]
fn emit_block(
    stmts: &Vec<Stmt>,
    tail: Option<&Expr>,
    out: &mut String,
    ctx: &mut TypeCtx,
    indent: usize,
    ret_ty: &Type,
    arena: Option<&str>,
    is_main: bool,
    ctrs: &mut Counters,
) -> (r: Result<(), CgenError>)
    requires
        old(ctx).wf(),
    ensures
        final(ctx).wf(),
        r is Ok ==> final(ctx)@ == old(ctx)@,
        emitted(
            r,
            final(out)@,
            final(ctrs)@,
            cgen_rules::emit_block(
                old(ctx)@,
                old(out)@,
                stmts_view(stmts@),
                opt_expr_view(tail),
                indent as nat,
                ret_ty@,
                opt_text(arena),
                is_main,
                old(ctrs)@,
            ),
        ),
{
    let pad = pad(indent);
    ctx.push_scope();
    let scope_name = match enter_scope(out, pad.as_str(), arena, ctrs, ");\n") {
        Ok(n) => n,
        Err(e) => {
            return Err(e);
        },
    };
    let ghost o1 = out@;
    let ghost c1 = ctrs@;
    match emit_stmts(stmts, out, ctx, indent, arena, ctrs) {
        Ok(()) => {},
        Err(e) => {
            return Err(e);
        },
    }
    proof {
        lemma_emit_stmts_frame(
            cgen_rules::push_scope(old(ctx)@),
            o1,
            stmts_view(stmts@),
            0,
            indent as nat,
            opt_text(arena),
            c1,
        );
        lemma_pop_restores(old(ctx)@, ctx@);
    }
    match tail {
        Some(expr) => {
            let ret_expr_arena = if ctx.is_str(ret_ty) || ctx.is_bytes(ret_ty) {
                None
            } else {
                arena
            };
            if ctx.is_unit(ret_ty) {
                out.append(pad.as_str());
                match emit_expr(expr, out, ctx, ret_expr_arena, ctrs) {
                    Ok(()) => {},
                    Err(e) => {
                        return Err(e);
                    },
                }
                out.append(";\n");
                leave_scope(out, pad.as_str(), arena, &scope_name, ");\n");
                if is_main {
                    out.append(pad.as_str());
                    out.append("return 0;\n");
                }
            } else {
                let cty = map_value_type(ret_ty, ctx);
                let number = ctrs.tmp;
                ctrs.tmp = match bump(ctrs.tmp) {
                    Ok(n) => n,
                    Err(e) => {
                        return Err(e);
                    },
                };
                let mut tmp = String::from_str("__ret");
                tmp.append(nat_to_string(number as u64).as_str());
                out.append(pad.as_str());
                out.append(cty.as_str());
                out.append(" ");
                out.append(tmp.as_str());
                out.append(" = ");
                match emit_expr(expr, out, ctx, ret_expr_arena, ctrs) {
                    Ok(()) => {},
                    Err(e) => {
                        return Err(e);
                    },
                }
                out.append(";\n");
                leave_scope(out, pad.as_str(), arena, &scope_name, ");\n");
                out.append(pad.as_str());
                out.append("return ");
                out.append(tmp.as_str());
                out.append(";\n");
            }
        },
        None => {
            if !ctx.is_unit(ret_ty) {
                return Err(
                    CgenError::Unsupported(String::from_str("missing return expression")),
                );
            }
            leave_scope(out, pad.as_str(), arena, &scope_name, ");\n");
            if is_main {
                out.append(pad.as_str());
                out.append("return 0;\n");
            }
        },
    }
    ctx.pop_scope();
    Ok(())
}

/// The builtin type names differ from each other.
proof fn lemma_builtin_names_differ()
    ensures
        "Str"@ != "i32"@,
        "Str"@ != "i64"@,
        "Str"@ != "u8"@,
        "Str"@ != "bool"@,
        "Bytes"@ != "i32"@,
        "Bytes"@ != "i64"@,
        "Bytes"@ != "u8"@,
        "Bytes"@ != "bool"@,
        "Bytes"@ != "Str"@,
{
    reveal_strlit("Str");
    reveal_strlit("Bytes");
    reveal_strlit("i32");
    reveal_strlit("i64");
    reveal_strlit("u8");
    reveal_strlit("bool");
    assert("Str"@[0] == 'S');
    assert("Bytes"@[0] == 'B');
    assert("i32"@[0] == 'i');
    assert("i64"@[0] == 'i');
    assert("u8"@[0] == 'u');
    assert("bool"@[0] == 'b');
}

fn emit_builtin_print(func: &FuncDecl, out: &mut String)
    ensures
        final(out)@ == cgen_rules::emit_builtin_print(old(out)@, func.name@),
{
    proof {
        lemma_builtin_names_differ();
    }
    let name = func.name.0.as_str();
    let ret_cty = map_type(&named_type("Str"));
    let msg_cty = map_type(&named_type("Str"));
    out.append(ret_cty.as_str());
    out.append(" ");
    out.append(name);
    out.append("(");
    out.append(msg_cty.as_str());
    out.append(" msg) {\n");
    out.append("  ");
    if str_eq(name, "print") {
        out.append("gaut_print");
    } else {
        out.append("gaut_println");
    }
    out.append("(msg);\n");
    out.append("  return msg;\n");
    out.append("}\n\n");
}

fn emit_builtin_io(func: &FuncDecl, out: &mut String)
    ensures
        final(out)@ == cgen_rules::emit_builtin_io(old(out)@, func.name@),
{
    proof {
        lemma_builtin_names_differ();
    }
    let name = func.name.0.as_str();
    if str_eq(name, "read_file") {
        let ret_cty = map_type(&named_type("Str"));
        let path_cty = map_type(&named_type("Str"));
        out.append(ret_cty.as_str());
        out.append(" read_file(");
        out.append(path_cty.as_str());
        out.append(" path) {\n");
        out.append("  return gaut_read_file(path);\n");
        out.append("}\n\n");
    } else if str_eq(name, "write_file") {
        out.append("void write_file(char* path, char* data) {\n");
        out.append("  gaut_write_file(path, data);\n");
        out.append("}\n\n");
    } else if str_eq(name, "args") {
        let ret_cty = map_type(&named_type("Bytes"));
        out.append(ret_cty.as_str());
        out.append(" args() {\n");
        out.append("  return gaut_args();\n");
        out.append("}\n\n");
    }
}

/// Appends the parameters, separated by `, `.
#[verifier::loop_isolation(false)]
fn emit_params(params: &Vec<Param>, out: &mut String, ctx: &TypeCtx)
    requires
        ctx.wf(),
    ensures
        final(out)@ == cgen_rules::emit_params(ctx@, old(out)@, params_view(params@), 0),
{
    let ghost pv = params_view(params@);
    let mut i: usize = 0;
    while i < params.len()
        invariant
            i <= params.len(),
            cgen_rules::emit_params(ctx@, old(out)@, pv, 0) == cgen_rules::emit_params(
                ctx@,
                out@,
                pv,
                i as int,
            ),
        decreases params.len() - i,
    {
        let p = &params[i];
        if i > 0 {
            out.append(", ");
        }
        let cty = map_value_type(&p.ty, ctx);
        out.append(cty.as_str());
        out.append(" ");
        out.append(p.name.0.as_str());
        i += 1;
    }
}

/// The return type of a function.
fn return_type(func: &FuncDecl, ctx: &mut TypeCtx) -> (r: Type)
    requires
        old(ctx).wf(),
    ensures
        final(ctx).wf(),
        final(ctx)@ == old(ctx)@,
        r@ == cgen_rules::return_type(old(ctx)@, func@),
{
    match &func.ret {
        Some(t) => t.clone(),
        None => {
            ctx.push_scope();
            ctx.bind_params(&func.params);
            let inferred = match ctx.infer_expr_type(&func.body) {
                Some(t) => t,
                None => named_type("Unit"),
            };
            proof {
                lemma_bind_params_frame(
                    cgen_rules::push_scope(old(ctx)@),
                    params_view(func.params@),
                    0,
                );
                lemma_pop_restores(old(ctx)@, ctx@);
            }
            ctx.pop_scope();
            inferred
        },
    }
}

#[verifier::rlimit(40)]
fn emit_function(func: &FuncDecl, out: &mut String, ctx: &mut TypeCtx) -> (r: Result<
    (),
    CgenError,
>)
    requires
        old(ctx).wf(),
    ensures
        final(ctx).wf(),
        r is Ok ==> final(ctx)@ == old(ctx)@,
        written(r, final(out)@, cgen_rules::emit_function(old(ctx)@, old(out)@, func@)),
{
    let name = func.name.0.as_str();
    if str_eq(name, "print") || str_eq(name, "println") {
        emit_builtin_print(func, out);
        return Ok(());
    }
    if str_eq(name, "read_file") || str_eq(name, "write_file") || str_eq(name, "args") {
        emit_builtin_io(func, out);
        return Ok(());
    }
    let ret_ty = return_type(func, ctx);
    let is_main = str_eq(name, "main");
    let ret_cty = if is_main {
        String::from_str("int")
    } else {
        map_type(&ret_ty)
    };
    out.append(ret_cty.as_str());
    out.append(" ");
    out.append(name);
    out.append("(");
    emit_params(&func.params, out, ctx);
    out.append(") {\n");

    ctx.push_scope();
    ctx.bind_params(&func.params);

    out.append("  uint8_t __arena_buf[GAUT_DEFAULT_ARENA_CAP];\n");
    out.append(
        "  gaut_arena __arena = gaut_arena_from_buffer(__arena_buf, GAUT_DEFAULT_ARENA_CAP);\n",
    );
    out.append("\n");

    let mut counters = Counters { tmp: 0, scope: 0 };
    let no_stmts: Vec<Stmt> = Vec::new();
    proof {
        assert(stmts_view(no_stmts@) =~= Seq::<crate::ast::StmtV>::empty());
    }
    let r = match &func.body {
        Expr::Block(b) => {
            proof {
                assert(func.body@ == crate::ast::ExprV::Block(b@));
                assert(b@.stmts =~= stmts_view(b.stmts@));
            }
            let tail = match &b.tail {
                Some(e) => {
                    let e: &Expr = e;
                    Some(e)
                },
                None => None,
            };
            emit_block(
                &b.stmts,
                tail,
                out,
                ctx,
                1,
                &ret_ty,
                Some("__arena"),
                is_main,
                &mut counters,
            )
        },
        other => emit_block(
            &no_stmts,
            Some(other),
            out,
            ctx,
            1,
            &ret_ty,
            Some("__arena"),
            is_main,
            &mut counters,
        ),
    };
    match r {
        Ok(()) => {},
        Err(e) => {
            return Err(e);
        },
    }
    proof {
        lemma_bind_params_frame(cgen_rules::push_scope(old(ctx)@), params_view(func.params@), 0);
        lemma_pop_restores(old(ctx)@, ctx@);
    }
    ctx.pop_scope();
    out.append("}\n\n");
    Ok(())
}

fn emit_global(binding: &Binding, out: &mut String, ctx: &mut TypeCtx) -> (r: Result<
    (),
    CgenError,
>)
    requires
        old(ctx).wf(),
    ensures
        final(ctx).wf(),
        r is Ok ==> final(ctx)@ == old(ctx)@,
        written(r, final(out)@, cgen_rules::emit_global(old(ctx)@, old(out)@, binding@)),
{
    let cty = map_value_type(&binding.ty, ctx);
    out.append(cty.as_str());
    out.append(" ");
    out.append(binding.name.0.as_str());
    out.append(" = ");
    let mut ctrs = Counters { tmp: 0, scope: 0 };
    match emit_expr(&binding.value, out, ctx, None, &mut ctrs) {
        Ok(()) => {},
        Err(e) => {
            return Err(e);
        },
    }
    out.append(";\n\n");
    Ok(())
}

fn emit_type_decl(ty: &TypeDecl, out: &mut String, ctx: &TypeCtx)
    requires
        ctx.wf(),
    ensures
        final(out)@ == cgen_rules::emit_type_decl(ctx@, old(out)@, ty.name@, ty.ty@),
{
    let resolved = ctx.resolve_alias(&ty.ty);
    match &resolved {
        Type::Record(fields) => {
            out.append("typedef struct {\n");
            map_fields(fields, out, Ghost(resolved@->Record_0));
            out.append("} ");
            out.append(ty.name.0.as_str());
            out.append(";\n");
        },
        other => {
            let cty = map_type(other);
            out.append("typedef ");
            out.append(cty.as_str());
            out.append(" ");
            out.append(ty.name.0.as_str());
            out.append(";\n");
        },
    }
    out.append("\n");
}

fn emit_builtin_shims(out: &mut String, func_names: &StringHashSet)
    ensures
        final(out)@ == cgen_rules::emit_builtin_shims(old(out)@, func_names@),
{
    if !func_names.contains("print") {
        out.append("char* print(char* msg) { gaut_print(msg); return msg; }\n");
    }
    if !func_names.contains("println") {
        out.append("char* println(char* msg) { gaut_println(msg); return msg; }\n");
    }
    if !func_names.contains("read_file") {
        out.append("char* read_file(char* path) { return gaut_read_file(path); }\n");
    }
    if !func_names.contains("write_file") {
        out.append("void write_file(char* path, char* data) { gaut_write_file(path, data); }\n");
    }
    if !func_names.contains("args") {
        out.append("gaut_bytes args() { return gaut_args(); }\n");
    }
    out.append("\n");
}

// ---------------------------------------------------------------------------
// Programs
// ---------------------------------------------------------------------------
fn add_builtin_type(types: &mut StringHashMap<Type>, names: &mut Vec<String>, name: &str)
    ensures
        types_view(final(types)@) == types_view(old(types)@).insert(name@, named(name)),
        final(types)@.dom() == old(types)@.dom().insert(name@),
        names_view(final(names)@) == names_view(old(names)@).push(name@),
{
    let ty = named_type(name);
    proof {
        lemma_types_view_insert(types@, name@, ty);
    }
    types.insert(String::from_str(name), ty);
    let s = String::from_str(name);
    proof {
        assert(names_view(names@.push(s)) =~= names_view(names@).push(s@));
    }
    names.push(s);
}

fn or_insert(funcs: &mut StringHashMap<FuncSig>, name: &str, ret: &str)
    ensures
        rets_view(final(funcs)@) == cgen_rules::or_insert(rets_view(old(funcs)@), name, ret),
{
    if !funcs.contains_key(name) {
        let sig = FuncSig { ret: Some(named_type(ret)) };
        proof {
            lemma_rets_view_insert(funcs@, name@, sig);
        }
        funcs.insert(String::from_str(name), sig);
    }
}

impl TypeCtx {
    /// What the emitter knows of a program before it writes anything.
    #[verifier::loop_isolation(false)]
    fn new(program: &Program) -> (r: Self)
        ensures
            r.wf(),
            r@ == cgen_rules::program_ctx(program@),
    {
        let mut types: StringHashMap<Type> = StringHashMap::new();
        let mut names: Vec<String> = Vec::new();
        proof {
            assert(types_view(types@) =~= Map::<Name, TypeV>::empty());
            assert(names_view(names@) =~= Seq::<Name>::empty());
        }
        add_builtin_type(&mut types, &mut names, "i32");
        add_builtin_type(&mut types, &mut names, "i64");
        add_builtin_type(&mut types, &mut names, "u8");
        add_builtin_type(&mut types, &mut names, "bool");
        add_builtin_type(&mut types, &mut names, "Str");
        add_builtin_type(&mut types, &mut names, "Bytes");
        add_builtin_type(&mut types, &mut names, "Unit");
        proof {
            assert(names_view(names@) =~= cgen_rules::builtin_names());
        }
        let funcs: StringHashMap<FuncSig> = StringHashMap::new();
        let mut ctx = TypeCtx { types, names, funcs, scopes: Vec::new() };
        proof {
            assert(rets_view(ctx.funcs@) =~= Map::<Name, Option<TypeV>>::empty());
            assert(ctx@.scopes =~= Seq::<Map<Name, TypeV>>::empty());
        }
        ctx.push_scope();
        proof {
            assert(ctx@.scopes =~= seq![Map::<Name, TypeV>::empty()]);
        }
        let ghost start = ctx@;
        let ghost dv = program@;
        let mut i: usize = 0;
        while i < program.decls.len()
            invariant
                i <= program.decls.len(),
                ctx.wf(),
                cgen_rules::collect(start, dv, 0) == cgen_rules::collect(ctx@, dv, i as int),
            decreases program.decls.len() - i,
        {
            match &program.decls[i] {
                Decl::Func(f) => {
                    let sig = FuncSig { ret: crate::ast::clone_opt_type(&f.ret) };
                    proof {
                        lemma_rets_view_insert(ctx.funcs@, f.name@, sig);
                    }
                    ctx.funcs.insert(f.name.0.clone(), sig);
                },
                Decl::Type(t) => {
                    let ty = t.ty.clone();
                    let name = t.name.0.clone();
                    proof {
                        lemma_types_view_insert(ctx.types@, t.name@, ty);
                        assert(names_view(ctx.names@.push(name)) =~= names_view(ctx.names@).push(
                            name@,
                        ));
                    }
                    ctx.types.insert(t.name.0.clone(), ty);
                    ctx.names.push(name);
                },
                Decl::Global(b) => {
                    ctx.insert_var(b.name.0.clone(), b.ty.clone());
                },
                Decl::Let(b) => {
                    ctx.insert_var(b.name.0.clone(), b.ty.clone());
                },
                Decl::Import(_) => {},
            }
            i += 1;
        }
        // Builtins
        or_insert(&mut ctx.funcs, "print", "Str");
        or_insert(&mut ctx.funcs, "println", "Str");
        or_insert(&mut ctx.funcs, "read_file", "Str");
        or_insert(&mut ctx.funcs, "write_file", "Unit");
        or_insert(&mut ctx.funcs, "args", "Bytes");
        ctx
    }
}

/// The model of the result of the emitter.
pub open spec fn text_result(r: Result<String, CgenError>) -> Result<Text, CgenErrorV> {
    match r {
        Ok(s) => Ok(s@),
        Err(e) => Err(e@),
    }
}

/// What the emitter makes of a text: the C source of its program,
/// or a `Parse` error with the message of the lexer or the parser.
pub open spec fn source_spec(src: Seq<char>) -> Result<Text, CgenErrorV> {
    match lex_spec(src) {
        Err(e) => Err(CgenErrorV::Parse(error_text(parse_rules::lex_error(e)))),
        Ok(ts) => match parse_rules::parse_program(ts, 0) {
            Err(e) => Err(CgenErrorV::Parse(error_text(e))),
            Ok((decls, _)) => cgen_rules::generate_c(decls),
        },
    }
}

pub fn generate_c_from_source(src: &str) -> (r: Result<String, CgenError>)
    ensures
        text_result(r) == source_spec(src@),
{
    let mut parser = match Parser::new(src) {
        Ok(p) => p,
        Err(e) => {
            return Err(CgenError::Parse(e.to_string()));
        },
    };
    let program = match parser.parse_program() {
        Ok(p) => p,
        Err(e) => {
            return Err(CgenError::Parse(e.to_string()));
        },
    };
    generate_c(&program)
}

/// The names of the functions of a program.
fn func_names(program: &Program) -> (r: StringHashSet)
    ensures
        r@ == cgen_rules::func_names(program@, program@.len() as int),
{
    let ghost dv = program@;
    let mut names = StringHashSet::new();
    let mut i: usize = 0;
    while i < program.decls.len()
        invariant
            i <= program.decls.len(),
            dv == program@,
            names@ == cgen_rules::func_names(dv, i as int),
        decreases program.decls.len() - i,
    {
        match &program.decls[i] {
            Decl::Func(f) => {
                names.insert(f.name.0.clone());
            },
            _ => {},
        }
        i += 1;
    }
    names
}

/// Appends the type declarations of a program.
fn emit_types(program: &Program, out: &mut String, ctx: &TypeCtx)
    requires
        ctx.wf(),
    ensures
        final(out)@ == cgen_rules::emit_types(ctx@, old(out)@, program@, 0),
{
    let ghost dv = program@;
    let mut i: usize = 0;
    while i < program.decls.len()
        invariant
            i <= program.decls.len(),
            dv == program@,
            ctx.wf(),
            cgen_rules::emit_types(ctx@, old(out)@, dv, 0) == cgen_rules::emit_types(
                ctx@,
                out@,
                dv,
                i as int,
            ),
        decreases program.decls.len() - i,
    {
        match &program.decls[i] {
            Decl::Type(t) => {
                emit_type_decl(t, out, ctx);
            },
            _ => {},
        }
        i += 1;
    }
}

/// Appends the top-level bindings of a program.
fn emit_globals(program: &Program, out: &mut String, ctx: &mut TypeCtx) -> (r: Result<
    (),
    CgenError,
>)
    requires
        old(ctx).wf(),
    ensures
        final(ctx).wf(),
        r is Ok ==> final(ctx)@ == old(ctx)@,
        written(r, final(out)@, cgen_rules::emit_globals(old(ctx)@, old(out)@, program@, 0)),
{
    let ghost dv = program@;
    let mut i: usize = 0;
    while i < program.decls.len()
        invariant
            i <= program.decls.len(),
            dv == program@,
            ctx.wf(),
            ctx@ == old(ctx)@,
            cgen_rules::emit_globals(old(ctx)@, old(out)@, dv, 0) == cgen_rules::emit_globals(
                old(ctx)@,
                out@,
                dv,
                i as int,
            ),
        decreases program.decls.len() - i,
    {
        match &program.decls[i] {
            Decl::Global(b) => {
                match emit_global(b, out, ctx) {
                    Ok(()) => {},
                    Err(e) => {
                        return Err(e);
                    },
                }
            },
            Decl::Let(b) => {
                match emit_global(b, out, ctx) {
                    Ok(()) => {},
                    Err(e) => {
                        return Err(e);
                    },
                }
            },
            _ => {},
        }
        i += 1;
    }
    Ok(())
}

/// Appends the functions of a program.
fn emit_funcs(program: &Program, out: &mut String, ctx: &mut TypeCtx) -> (r: Result<
    (),
    CgenError,
>)
    requires
        old(ctx).wf(),
    ensures
        final(ctx).wf(),
        r is Ok ==> final(ctx)@ == old(ctx)@,
        written(r, final(out)@, cgen_rules::emit_funcs(old(ctx)@, old(out)@, program@, 0)),
{
    let ghost dv = program@;
    let mut i: usize = 0;
    while i < program.decls.len()
        invariant
            i <= program.decls.len(),
            dv == program@,
            ctx.wf(),
            ctx@ == old(ctx)@,
            cgen_rules::emit_funcs(old(ctx)@, old(out)@, dv, 0) == cgen_rules::emit_funcs(
                old(ctx)@,
                out@,
                dv,
                i as int,
            ),
        decreases program.decls.len() - i,
    {
        match &program.decls[i] {
            Decl::Func(f) => {
                match emit_function(f, out, ctx) {
                    Ok(()) => {},
                    Err(e) => {
                        return Err(e);
                    },
                }
            },
            _ => {},
        }
        i += 1;
    }
    Ok(())
}

/// The C source of a program.
pub fn generate_c(program: &Program) -> (r: Result<String, CgenError>)
    ensures
        text_result(r) == cgen_rules::generate_c(program@),
{
    let mut ctx = TypeCtx::new(program);
    let mut out = String::from_str("#include <stdint.h>\n");
    out.append("#include <stdbool.h>\n");
    out.append("#include <stddef.h>\n");
    out.append("#include \"runtime.h\"\n\n");
    let names = func_names(program);
    emit_builtin_shims(&mut out, &names);
    // forward declare type aliases
    emit_types(program, &mut out, &ctx);
    // globals (let/global)
    match emit_globals(program, &mut out, &mut ctx) {
        Ok(()) => {},
        Err(e) => {
            return Err(e);
        },
    }
    // functions
    match emit_funcs(program, &mut out, &mut ctx) {
        Ok(()) => {},
        Err(e) => {
            return Err(e);
        },
    }
    Ok(out)
}

} // verus!

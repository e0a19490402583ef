//! The builtin functions that every program may rely on. `print` and
//! `println` are given to a program as functions of its own where it does
//! not define them, so that the checker, the evaluator and the emitter all
//! see them.

use crate::ast::{
    named, Decl, DeclV, Expr, ExprV, FuncDecl, FuncDeclV, Ident, Name, Param, ParamV, Path, Type,
};
use crate::text::str_eq;
use vstd::prelude::*;

verus! {

/// The models of a list of declarations.
pub open spec fn decls_view(ds: Seq<Decl>) -> Seq<DeclV> {
    Seq::new(ds.len(), |i: int| ds[i]@)
}

/// Whether one of the first `n` declarations is a function called `name`.
pub open spec fn defines_func(decls: Seq<DeclV>, name: Name, n: int) -> bool {
    exists|i: int|
        0 <= i < n && i < decls.len() && (#[trigger] decls[i] matches DeclV::Func(f) && f.name
            == name)
}

/// The function `name(msg: Str) -> Str = msg`.
pub open spec fn print_decl(name: &str) -> DeclV {
    DeclV::Func(
        FuncDeclV {
            name: name@,
            params: seq![ParamV { mutable: false, name: "msg"@, ty: named("Str") }],
            ret: Some(named("Str")),
            body: ExprV::Path(seq!["msg"@]),
        },
    )
}

/// The declarations with `print` and `println` added behind them, each
/// where the declarations hold no function of that name.
pub open spec fn with_builtin_prints(decls: Seq<DeclV>) -> Seq<DeclV> {
    let with_print = if defines_func(decls, "print"@, decls.len() as int) {
        decls
    } else {
        decls.push(print_decl("print"))
    };
    if defines_func(decls, "println"@, decls.len() as int) {
        with_print
    } else {
        with_print.push(print_decl("println"))
    }
}

/// Whether one of the declarations is a function called `name`.
fn has_func(decls: &Vec<Decl>, name: &str) -> (r: bool)
    ensures
        r == defines_func(decls_view(decls@), name@, decls@.len() as int),
{
    let mut i: usize = 0;
    while i < decls.len()
        invariant
            i <= decls.len(),
            !defines_func(decls_view(decls@), name@, i as int),
        decreases decls.len() - i,
    {
        match &decls[i] {
            Decl::Func(f) => {
                if str_eq(f.name.0.as_str(), name) {
                    assert(decls_view(decls@)[i as int] matches DeclV::Func(g) && g.name == name@);
                    return true;
                }
            },
            _ => {},
        }
        i += 1;
    }
    false
}

/// The function `name(msg: Str) -> Str = msg`.
fn print_func(name: &str) -> (r: Decl)
    ensures
        r@ == print_decl(name),
{
    let mut params: Vec<Param> = Vec::new();
    params.push(
        Param {
            mutable: false,
            name: Ident(String::from_str("msg")),
            ty: Type::Named(Ident(String::from_str("Str"))),
        },
    );
    let mut path: Vec<Ident> = Vec::new();
    path.push(Ident(String::from_str("msg")));
    let f = FuncDecl {
        name: Ident(String::from_str(name)),
        params,
        ret: Some(Type::Named(Ident(String::from_str("Str")))),
        body: Expr::Path(Path(path)),
    };
    proof {
        assert(f@.params =~= seq![ParamV { mutable: false, name: "msg"@, ty: named("Str") }]);
        assert(f.body@->Path_0 =~= seq!["msg"@]);
    }
    Decl::Func(f)
}

/// Adds `print` and `println` behind the declarations, each where the
/// declarations hold no function of that name.
pub fn append_builtin_prints(decls: &mut Vec<Decl>)
    ensures
        decls_view(final(decls)@) == with_builtin_prints(decls_view(old(decls)@)),
{
    let has_print = has_func(decls, "print");
    let has_println = has_func(decls, "println");
    if !has_print {
        let d = print_func("print");
        proof {
            assert(decls_view(decls@.push(d)) =~= decls_view(decls@).push(d@));
        }
        decls.push(d);
    }
    if !has_println {
        let d = print_func("println");
        proof {
            assert(decls_view(decls@.push(d)) =~= decls_view(decls@).push(d@));
        }
        decls.push(d);
    }
}

} // verus!

//! Properties of every generated body, proved from the generator's
//! contracts.
use vstd::prelude::*;
use crate::ast::{CaseBranch, ClassDecl, EffExpr, Expr, Module, ModuleItem, Stmt};
use crate::generator::{Options, Target};
use crate::skeleton::{generated_class_ok, mock_module_ok, preamble_len};
use crate::typing::{
    EntryModel, Limits, allowed_stmts, body_ok, count_nc, fresh, is_new_d_assign, is_null_check,
    is_return_param, lemma_stmt_ok_not_null_check, null_check_ok, scope_at, seed_scope,
    stmt_ok, stmts_ok,
};

verus! {

/// How deeply `if` statements nest in `s`.
pub open spec fn if_depth(s: Stmt) -> nat
    decreases s, 0nat,
{
    match s {
        Stmt::If(f) => 1 + max_nat(
            if_depth(*f.then_branch),
            match f.else_branch {
                Some(e) => if_depth(*e),
                None => 0,
            },
        ),
        Stmt::Block(b) => stmts_if_depth(b.stmts@, b.stmts@.len()),
        _ => 0,
    }
}

pub open spec fn max_nat(a: nat, b: nat) -> nat {
    if a >= b { a } else { b }
}

/// The deepest `if` nesting among the first `n` statements.
pub open spec fn stmts_if_depth(ss: Seq<Stmt>, n: nat) -> nat
    decreases ss, n,
{
    if n == 0 || n > ss.len() {
        0
    } else {
        max_nat(stmts_if_depth(ss, (n - 1) as nat), if_depth(ss[n - 1]))
    }
}

/// A call `e.m(..)` or `e!m(..)`, or a future resolution `e.get`.
pub open spec fn is_call(e: Expr) -> bool {
    ||| e matches Expr::Eff(EffExpr::SyncCall(_))
    ||| e matches Expr::Eff(EffExpr::AsyncCall(_))
    ||| e matches Expr::Eff(EffExpr::Get(_))
}

/// `s` holds no call and no future resolution anywhere.
pub open spec fn no_call(s: Stmt) -> bool
    decreases s, 0nat,
{
    match s {
        Stmt::VarDecl(d) => match d.init {
            Some(x) => !is_call(x),
            None => true,
        },
        Stmt::Assign(a) => !is_call(a.expr),
        Stmt::Expr(e) => !is_call(e.expr),
        Stmt::Return(r) => !is_call(r.expr),
        Stmt::Block(b) => stmts_no_call(b.stmts@, b.stmts@.len()),
        Stmt::If(f) => no_call(*f.then_branch) && match f.else_branch {
            Some(e) => no_call(*e),
            None => true,
        },
        Stmt::While(w) => no_call(*w.body),
        Stmt::Foreach(w) => no_call(*w.body),
        Stmt::Switch(w) => branches_no_call(w.branches@, w.branches@.len()),
        Stmt::TryCatchFinally(t) => no_call(*t.attempt) && branches_no_call(t.catch_branches@, t.catch_branches@.len())
            && match t.finally {
            Some(x) => no_call(*x),
            None => true,
        },
        _ => true,
    }
}

pub open spec fn stmts_no_call(ss: Seq<Stmt>, n: nat) -> bool
    decreases ss, n,
{
    if n == 0 || n > ss.len() {
        true
    } else {
        stmts_no_call(ss, (n - 1) as nat) && no_call(ss[n - 1])
    }
}

pub open spec fn branches_no_call(bs: Seq<CaseBranch<Stmt>>, n: nat) -> bool
    decreases bs, n,
{
    if n == 0 || n > bs.len() {
        true
    } else {
        branches_no_call(bs, (n - 1) as nat) && no_call(bs[n - 1].right)
    }
}

/// A `stmt_ok` statement at depth `d` that holds an `if` keeps its nesting
/// within the depth limit; where calls are not allowed it holds none.
pub proof fn lemma_stmt_bounds(s: Stmt, sc: Seq<EntryModel>, d: nat, lim: Limits)
    requires
        stmt_ok(s, sc, d, lim),
    ensures
        if_depth(s) == 0 || d + if_depth(s) <= lim.max_depth,
        !lim.allow_calls ==> no_call(s),
    decreases s, 0nat,
{
    match s {
        Stmt::If(f) => {
            assert(d < lim.max_depth);
            let t = *f.then_branch;
            if let Stmt::Block(b) = t {
                lemma_stmts_bounds(b.stmts@, b.stmts@.len(), seq![], sc, d + 1, lim);
                assert(if_depth(t) == stmts_if_depth(b.stmts@, b.stmts@.len()));
                assert(no_call(t) == stmts_no_call(b.stmts@, b.stmts@.len()));
            }
            if let Some(e) = f.else_branch {
                let es = *e;
                if let Stmt::Block(b) = es {
                    lemma_stmts_bounds(b.stmts@, b.stmts@.len(), seq![], sc, d + 1, lim);
                    assert(if_depth(es) == stmts_if_depth(b.stmts@, b.stmts@.len()));
                    assert(no_call(es) == stmts_no_call(b.stmts@, b.stmts@.len()));
                }
            }
        },
        Stmt::VarDecl(v) => {
            assert(if_depth(s) == 0);
        },
        Stmt::Assign(a) => {
            assert(if_depth(s) == 0);
        },
        _ => {},
    }
}

/// The bounds of `lemma_stmt_bounds` for the first `n` statements of a block
/// at depth `d`.
pub proof fn lemma_stmts_bounds(
    ss: Seq<Stmt>,
    n: nat,
    base: Seq<EntryModel>,
    outer: Seq<EntryModel>,
    d: nat,
    lim: Limits,
)
    requires
        stmts_ok(ss, n, base, outer, d, lim),
    ensures
        stmts_if_depth(ss, n) == 0 || d + stmts_if_depth(ss, n) <= lim.max_depth,
        !lim.allow_calls ==> stmts_no_call(ss, n),
    decreases ss, n,
{
    if n > 0 {
        lemma_stmts_bounds(ss, (n - 1) as nat, base, outer, d, lim);
        lemma_stmt_bounds(ss[n - 1], scope_at(ss, (n - 1) as nat, base, outer), d, lim);
    }
}

/// An allowed top-level statement: its `if` nesting stays within a depth
/// limit of at least one, and it holds no call where calls are not allowed.
pub proof fn lemma_allowed_bounds(s: Stmt, sc: Seq<EntryModel>, lim: Limits)
    requires
        stmt_ok(s, sc, 0, lim) || null_check_ok(s, sc, lim),
    ensures
        lim.max_depth >= 1 ==> if_depth(s) <= lim.max_depth,
        !lim.allow_calls ==> no_call(s),
{
    if stmt_ok(s, sc, 0, lim) {
        lemma_stmt_bounds(s, sc, 0, lim);
    } else {
        if let Stmt::If(f) = s {
            let t = *f.then_branch;
            if let Stmt::Block(b) = t {
                let ss = b.stmts@;
                let n = ss.len();
                lemma_stmts_bounds(ss, (n - 1) as nat, seq![], sc, 1, lim);
                assert(ss[n - 1] == ss.last());
                assert(is_new_d_assign(ss[n - 1]));
                assert(if_depth(ss[n - 1]) == 0);
                assert(no_call(ss[n - 1]));
                assert(stmts_if_depth(ss, n) == stmts_if_depth(ss, (n - 1) as nat));
                assert(stmts_no_call(ss, n) == stmts_no_call(ss, (n - 1) as nat));
                assert(if_depth(t) == stmts_if_depth(ss, n));
                assert(no_call(t) == stmts_no_call(ss, n));
            }
            if let Some(e) = f.else_branch {
                let es = *e;
                if let Stmt::Block(b) = es {
                    lemma_stmts_bounds(b.stmts@, b.stmts@.len(), seq![], sc, 1, lim);
                    assert(if_depth(es) == stmts_if_depth(b.stmts@, b.stmts@.len()));
                    assert(no_call(es) == stmts_no_call(b.stmts@, b.stmts@.len()));
                }
            }
        }
    }
}

/// The first `n` allowed top-level statements.
proof fn lemma_allowed_prefix(ss: Seq<Stmt>, n: nat, lim: Limits)
    requires
        allowed_stmts(ss, n, seed_scope(), seq![], 0, lim),
    ensures
        forall|j: int| 0 <= j < n ==> {
            &&& lim.max_depth >= 1 ==> if_depth(#[trigger] ss[j]) <= lim.max_depth
            &&& !lim.allow_calls ==> no_call(ss[j])
            &&& is_null_check(ss[j]) ==> null_check_ok(ss[j], scope_at(ss, j as nat, seed_scope(), seq![]), lim)
        },
    decreases n,
{
    if n > 0 {
        lemma_allowed_prefix(ss, (n - 1) as nat, lim);
        let sc = scope_at(ss, (n - 1) as nat, seed_scope(), seq![]);
        let s = ss[n - 1];
        lemma_allowed_bounds(s, sc, lim);
        if is_null_check(s) && stmt_ok(s, sc, 0, lim) {
            lemma_stmt_ok_not_null_check(s, sc, 0, lim);
        }
    }
}

/// In a generated body, `if` statements nest no deeper than the depth limit,
/// when that limit is at least one (with a limit of zero only the appended
/// null check is an `if`).
pub proof fn law_if_nesting_bounded(ss: Seq<Stmt>, lim: Limits)
    requires
        body_ok(ss, lim),
        lim.max_depth >= 1,
    ensures
        forall|j: int| 0 <= j < ss.len() ==> if_depth(#[trigger] ss[j]) <= lim.max_depth,
{
    law_body_facts(ss, lim);
}

/// Where calls are not allowed (the `Location` target), a generated body
/// holds no synchronous call, no asynchronous call and no `.get`.
pub proof fn law_no_call(ss: Seq<Stmt>, lim: Limits)
    requires
        body_ok(ss, lim),
        !lim.allow_calls,
    ensures
        forall|j: int| 0 <= j < ss.len() ==> no_call(#[trigger] ss[j]),
{
    law_body_facts(ss, lim);
}

/// A generated body holds exactly one null check among its statements
/// before the final `return i;`, and every null check there ends its
/// `then` block with `i = new D();`.
pub proof fn law_single_null_check(ss: Seq<Stmt>, lim: Limits)
    requires
        body_ok(ss, lim),
    ensures
        count_nc(ss, (ss.len() - 1) as nat) == 1,
        forall|j: int| 0 <= j < ss.len() - 1 && is_null_check(#[trigger] ss[j]) ==> {
            &&& ss[j] matches Stmt::If(f)
            &&& *f.then_branch matches Stmt::Block(b)
            &&& b.stmts@.len() >= 1
            &&& is_new_d_assign(b.stmts@.last())
        },
{
    law_body_facts(ss, lim);
}

/// No method body of `c` holds a call or a future resolution.
pub open spec fn class_no_call(c: ClassDecl) -> bool {
    forall|q: int, j: int|
        0 <= q < c.methods@.len() && 0 <= j < c.methods@[q].body.stmts@.len() ==> no_call(
            #[trigger] c.methods@[q].body.stmts@[j],
        )
}

pub open spec fn item_no_call(it: ModuleItem) -> bool {
    it matches ModuleItem::ClassDecl(c) ==> class_no_call(c)
}

/// Under the `Location` target, no method of the generated module, in the
/// preamble or in a random class, holds a synchronous call, an asynchronous
/// call or a `.get`.
pub proof fn law_module_without_calls(m: Module, opts: Options)
    requires
        mock_module_ok(m, opts),
        opts.target == Target::Location,
    ensures
        forall|k: int| 0 <= k < m.children@.len() ==> item_no_call(#[trigger] m.children@[k]),
{
    let p = preamble_len(opts.target);
    assert(p == 4);
    assert forall|k: int| 0 <= k < m.children@.len() implies item_no_call(#[trigger] m.children@[k]) by {
        if k >= 4 {
            assert(m.children@[p + (k - 4)] == m.children@[k]);
            if let ModuleItem::ClassDecl(c) = m.children@[k] {
                assert(generated_class_ok(c, "Generated_"@ + crate::text::digits((k - 4) as nat), opts));
                law_no_call(c.methods@[0].body.stmts@, opts.limits());
                assert forall|q: int, j: int|
                    0 <= q < c.methods@.len() && 0 <= j < c.methods@[q].body.stmts@.len() implies no_call(
                    #[trigger] c.methods@[q].body.stmts@[j]) by {
                    assert(q == 0);
                }
            }
        } else if let ModuleItem::ClassDecl(c) = m.children@[k] {
            assert forall|q: int, j: int|
                0 <= q < c.methods@.len() && 0 <= j < c.methods@[q].body.stmts@.len() implies no_call(
                #[trigger] c.methods@[q].body.stmts@[j]) by {
                let s = c.methods@[q].body.stmts@[j];
                if let Stmt::VarDecl(d) = s {
                    assert(!is_call(d.init->0));
                }
            }
        }
    }
}

/// A generated body ends with `return i;`.
pub proof fn law_ends_with_return(ss: Seq<Stmt>, lim: Limits)
    requires
        body_ok(ss, lim),
    ensures
        ss.len() >= 1 && is_return_param(ss.last()),
{
}

/// A declaration that the generator emits names a variable that no entry in
/// scope has.
pub proof fn law_fresh_declaration(s: Stmt, sc: Seq<EntryModel>, d: nat, lim: Limits)
    requires
        stmt_ok(s, sc, d, lim),
        s is VarDecl,
    ensures
        fresh(sc, s->VarDecl_0.ident.str@),
{
}

proof fn law_body_facts(ss: Seq<Stmt>, lim: Limits)
    requires
        body_ok(ss, lim),
    ensures
        lim.max_depth >= 1 ==> forall|j: int| 0 <= j < ss.len() ==> if_depth(#[trigger] ss[j]) <= lim.max_depth,
        !lim.allow_calls ==> forall|j: int| 0 <= j < ss.len() ==> no_call(#[trigger] ss[j]),
        forall|j: int| 0 <= j < ss.len() - 1 && is_null_check(#[trigger] ss[j]) ==> {
            &&& ss[j] matches Stmt::If(f)
            &&& *f.then_branch matches Stmt::Block(b)
            &&& b.stmts@.len() >= 1
            &&& is_new_d_assign(b.stmts@.last())
        },
{
    let n = ss.len();
    let last = ss[n - 1];
    if allowed_stmts(ss, (n - 1) as nat, seed_scope(), seq![], 0, lim) {
        lemma_allowed_prefix(ss, (n - 1) as nat, lim);
    } else {
        lemma_allowed_prefix(ss, (n - 2) as nat, lim);
        lemma_allowed_bounds(ss[n - 2], scope_at(ss, (n - 2) as nat, seed_scope(), seq![]), lim);
    }
    assert(if_depth(last) == 0);
    assert(no_call(last));
}

} // verus!

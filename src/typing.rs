//! What it means for generated code to be well scoped and well typed: the
//! model of scope entries, and predicates over expressions and statements.
use vstd::prelude::*;
use crate::chance::is_exp_outcome;
use crate::ast::{
    AssignStmt, BinaryOp, EffExpr, Expr, Ident, OperatorExpr, PureExpr, Stmt, Type, UnaryOp,
    VarDeclStmt, is_fut_spec,
};

verus! {

/// How the generator compares types: by name, and for a future also by the
/// name of its payload.
pub type TyKey = (Seq<char>, Seq<char>);

pub open spec fn key(t: Type) -> TyKey {
    (t.ident.str@, if is_fut_spec(t) && t.args@.len() > 0 { t.args@[0].ident.str@ } else { Seq::empty() })
}

pub open spec fn int_key() -> TyKey {
    ("Int"@, Seq::empty())
}

pub open spec fn bool_key() -> TyKey {
    ("Bool"@, Seq::empty())
}

pub open spec fn i_key() -> TyKey {
    ("I"@, Seq::empty())
}

pub open spec fn j_key() -> TyKey {
    ("J"@, Seq::empty())
}

/// The key of `Fut<T>` for a `T` named `payload`.
pub open spec fn fut_key(payload: Seq<char>) -> TyKey {
    ("Fut"@, payload)
}

/// A future carries exactly one type argument.
pub open spec fn wf_ty(t: Type) -> bool {
    is_fut_spec(t) ==> t.args@.len() == 1
}

#[derive(Clone, Copy, PartialEq, Eq, Structural, Debug)]
pub enum EntryKind {
    Field,
    Var,
    Fn,
}

/// A scope entry as the contracts see it.
pub struct EntryModel {
    pub kind: EntryKind,
    pub name: Seq<char>,
    pub ty: TyKey,
    pub recv: Seq<TyKey>,
    pub args: Seq<TyKey>,
}

/// Some variable or field of the scope has the type `k`.
pub open spec fn has_var_of(sc: Seq<EntryModel>, k: TyKey) -> bool {
    exists|i: int| 0 <= i < sc.len() && #[trigger] sc[i].kind != EntryKind::Fn && sc[i].ty == k
}

/// The variable or field `name` of type `k` is in scope.
pub open spec fn has_var(sc: Seq<EntryModel>, name: Seq<char>, k: TyKey) -> bool {
    exists|i: int|
        0 <= i < sc.len() && #[trigger] sc[i].kind != EntryKind::Fn && sc[i].name == name
            && sc[i].ty == k
}

/// No entry of the scope is named `name`.
pub open spec fn fresh(sc: Seq<EntryModel>, name: Seq<char>) -> bool {
    forall|i: int| 0 <= i < sc.len() ==> #[trigger] sc[i].name != name
}

/// The types that the generator draws from its menu.
pub open spec fn is_base(k: TyKey) -> bool {
    k == int_key() || k == bool_key() || k == i_key() || k == j_key()
}

/// The types of the generator's menu: the base types and their futures.
pub open spec fn is_menu(k: TyKey) -> bool {
    ||| is_base(k)
    ||| k == fut_key("Int"@) || k == fut_key("Bool"@) || k == fut_key("I"@) || k == fut_key("J"@)
}

/// Every base type is inhabited, and every callable has a receiver type and
/// argument types among the base types.
pub open spec fn scope_ready(sc: Seq<EntryModel>) -> bool {
    &&& has_var_of(sc, int_key())
    &&& has_var_of(sc, bool_key())
    &&& has_var_of(sc, i_key())
    &&& has_var_of(sc, j_key())
    &&& forall|i: int|
        0 <= i < sc.len() && #[trigger] sc[i].kind == EntryKind::Fn ==> {
            &&& sc[i].recv.len() > 0
            &&& forall|j: int| 0 <= j < sc[i].recv.len() ==> is_base(#[trigger] sc[i].recv[j])
            &&& forall|j: int| 0 <= j < sc[i].args.len() ==> is_base(#[trigger] sc[i].args[j])
        }
}

pub open spec fn is_digit(c: char) -> bool {
    '0' <= c && c <= '9'
}

/// Decimal text of an integer: digits, with a leading `-` when negative.
pub open spec fn is_decimal(s: Seq<char>) -> bool {
    ||| s.len() > 0 && forall|i: int| 0 <= i < s.len() ==> is_digit(#[trigger] s[i])
    ||| s.len() > 1 && s[0] == '-' && forall|i: int| 1 <= i < s.len() ==> is_digit(#[trigger] s[i])
}

/// A literal of the type `k`.
pub open spec fn lit_ok(s: Seq<char>, k: TyKey) -> bool {
    ||| k == int_key() && is_decimal(s)
    ||| k == bool_key() && (s == "True"@ || s == "False"@)
}

/// `e` is a pure expression of type `k` whose identifiers all name variables
/// or fields of `sc` of the right type.
pub open spec fn pure_ok(e: PureExpr, k: TyKey, sc: Seq<EntryModel>) -> bool
    decreases e,
{
    match e {
        PureExpr::Ident(x) => has_var(sc, x.ident.str@, k),
        PureExpr::Literal(l) => lit_ok(l.s@, k),
        PureExpr::Operator(OperatorExpr::Unary(u)) => match u.op {
            UnaryOp::Not => k == bool_key() && pure_ok(*u.expr, bool_key(), sc),
            UnaryOp::Minus => k == int_key() && pure_ok(*u.expr, int_key(), sc),
        },
        PureExpr::Operator(OperatorExpr::Binary(b)) => match b.op {
            BinaryOp::Eq => k == bool_key() && {
                ||| pure_ok(*b.left, int_key(), sc) && pure_ok(*b.right, int_key(), sc)
                ||| pure_ok(*b.left, bool_key(), sc) && pure_ok(*b.right, bool_key(), sc)
                ||| pure_ok(*b.left, i_key(), sc) && pure_ok(*b.right, i_key(), sc)
                ||| pure_ok(*b.left, j_key(), sc) && pure_ok(*b.right, j_key(), sc)
                ||| pure_ok(*b.left, fut_key("Int"@), sc) && pure_ok(*b.right, fut_key("Int"@), sc)
                ||| pure_ok(*b.left, fut_key("Bool"@), sc) && pure_ok(*b.right, fut_key("Bool"@), sc)
                ||| pure_ok(*b.left, fut_key("I"@), sc) && pure_ok(*b.right, fut_key("I"@), sc)
                ||| pure_ok(*b.left, fut_key("J"@), sc) && pure_ok(*b.right, fut_key("J"@), sc)
            },
            BinaryOp::Ne | BinaryOp::Lt | BinaryOp::Le | BinaryOp::Gt | BinaryOp::Ge => k
                == bool_key() && pure_ok(*b.left, int_key(), sc) && pure_ok(*b.right, int_key(), sc),
            BinaryOp::Plus | BinaryOp::Minus | BinaryOp::Mult | BinaryOp::Div | BinaryOp::Mod => k
                == int_key() && pure_ok(*b.left, int_key(), sc) && pure_ok(*b.right, int_key(), sc),
            BinaryOp::Or | BinaryOp::And => k == bool_key() && pure_ok(*b.left, bool_key(), sc)
                && pure_ok(*b.right, bool_key(), sc),
        },
        _ => false,
    }
}

/// A call of the callable `m` on `callee` with `args` is well scoped and well
/// typed, and `m` returns a type named `ret`.
pub open spec fn call_fits(
    m: EntryModel,
    callee: PureExpr,
    method: Ident,
    args: Seq<PureExpr>,
    ret: Seq<char>,
    sc: Seq<EntryModel>,
) -> bool {
    &&& m.kind == EntryKind::Fn
    &&& m.name == method.str@
    &&& m.ty.0 == ret
    &&& args.len() == m.args.len()
    &&& forall|j: int| 0 <= j < args.len() ==> pure_ok(#[trigger] args[j], m.args[j], sc)
    &&& exists|j: int| 0 <= j < m.recv.len() && pure_ok(callee, #[trigger] m.recv[j], sc)
}

/// `e` is an expression of type `k` over the scope `sc`; calls and future
/// resolutions only where `allow_calls`.
pub open spec fn expr_ok(e: Expr, k: TyKey, sc: Seq<EntryModel>, allow_calls: bool) -> bool {
    match e {
        Expr::Pure(p) => pure_ok(p, k, sc),
        Expr::Eff(EffExpr::New(n)) => !n.local && n.args@.len() == 0 && ((k == i_key()
            && n.ty.str@ == "D"@) || (k == j_key() && n.ty.str@ == "E"@)),
        Expr::Eff(EffExpr::Get(g)) => allow_calls && k.0 != "Fut"@ && pure_ok(g.expr, fut_key(k.0), sc),
        Expr::Eff(EffExpr::AsyncCall(c)) => allow_calls && k.0 == "Fut"@ && exists|m: EntryModel|
            #[trigger] sc.contains(m) && call_fits(m, c.callee, c.method, c.args@, k.1, sc),
        Expr::Eff(EffExpr::SyncCall(c)) => allow_calls && exists|m: EntryModel|
            #[trigger] sc.contains(m) && call_fits(m, c.callee, c.method, c.args@, k.0, sc),
        Expr::Eff(EffExpr::Await(_)) => false,
    }
}

/// The entry that a variable declaration adds to its frame.
pub open spec fn var_model(d: VarDeclStmt) -> EntryModel {
    EntryModel { kind: EntryKind::Var, name: d.ident.str@, ty: key(d.ty), recv: seq![], args: seq![] }
}

pub open spec fn var_decl_ok(d: VarDeclStmt, sc: Seq<EntryModel>, allow_calls: bool) -> bool {
    &&& d.annotations.0@.len() == 0
    &&& wf_ty(d.ty)
    &&& fresh(sc, d.ident.str@)
    &&& d.init matches Some(x) && expr_ok(x, key(d.ty), sc, allow_calls)
}

pub open spec fn assign_ok(a: AssignStmt, sc: Seq<EntryModel>, allow_calls: bool) -> bool {
    &&& !a.this
    &&& exists|i: int|
        0 <= i < sc.len() && #[trigger] sc[i].kind != EntryKind::Fn && sc[i].name == a.ident.str@
            && expr_ok(a.expr, sc[i].ty, sc, allow_calls)
}

/// Entries that the declarations among the first `n` statements define, in order.
pub open spec fn locals(ss: Seq<Stmt>, n: nat) -> Seq<EntryModel>
    decreases n,
{
    if n == 0 || n > ss.len() {
        seq![]
    } else {
        locals(ss, (n - 1) as nat) + local_of(ss[n - 1])
    }
}

/// The entry that a statement adds to its frame, if any.
pub open spec fn local_of(s: Stmt) -> Seq<EntryModel> {
    match s {
        Stmt::VarDecl(d) => seq![var_model(d)],
        _ => seq![],
    }
}

pub proof fn lemma_locals_one(s: Stmt)
    ensures
        locals(seq![s], 1) == local_of(s),
{
    assert(locals(seq![s], 0) == Seq::<EntryModel>::empty());
    assert(locals(seq![s], 1) =~= local_of(s));
}

/// What is in scope at statement `n` of a block: the entries its frame held
/// before the block, the block's own declarations so far, then the enclosing
/// frames.
pub open spec fn scope_at(ss: Seq<Stmt>, n: nat, base: Seq<EntryModel>, outer: Seq<EntryModel>) -> Seq<EntryModel> {
    base + locals(ss, n) + outer
}

/// The limits under which statements are generated.
pub struct Limits {
    pub max_depth: nat,
    pub allow_calls: bool,
}

/// `s` is a var-decl, an assign or a generic `if` at nesting depth `depth`,
/// with nested blocks opening frames of their own.
pub open spec fn stmt_ok(s: Stmt, sc: Seq<EntryModel>, depth: nat, lim: Limits) -> bool
    decreases s, 0nat,
{
    match s {
        Stmt::VarDecl(d) => var_decl_ok(d, sc, lim.allow_calls),
        Stmt::Assign(a) => assign_ok(a, sc, lim.allow_calls),
        Stmt::If(f) => {
            &&& depth < lim.max_depth
            &&& pure_ok(f.condition, bool_key(), sc)
            &&& match *f.then_branch {
                Stmt::Block(b) => stmts_ok(b.stmts@, b.stmts@.len(), seq![], sc, depth + 1, lim),
                _ => false,
            }
            &&& match f.else_branch {
                None => true,
                Some(e) => match *e {
                    Stmt::Block(b) => stmts_ok(b.stmts@, b.stmts@.len(), seq![], sc, depth + 1, lim),
                    _ => false,
                },
            }
        },
        _ => false,
    }
}

/// The first `n` statements of a block are each `stmt_ok` in the scope at their place.
pub open spec fn stmts_ok(
    ss: Seq<Stmt>,
    n: nat,
    base: Seq<EntryModel>,
    outer: Seq<EntryModel>,
    depth: nat,
    lim: Limits,
) -> bool
    decreases ss, n,
{
    if n == 0 {
        true
    } else if n > ss.len() {
        false
    } else {
        stmts_ok(ss, (n - 1) as nat, base, outer, depth, lim)
            && stmt_ok(ss[n - 1], scope_at(ss, (n - 1) as nat, base, outer), depth, lim)
    }
}


/// A use of the method's parameter `i`.
pub open spec fn is_param_use(e: PureExpr) -> bool {
    e matches PureExpr::Ident(x) && x.ident.str@ == "i"@
}

/// `i == null`
pub open spec fn is_null_check_cond(c: PureExpr) -> bool {
    c matches PureExpr::Operator(OperatorExpr::Binary(b)) && b.op == BinaryOp::Eq && is_param_use(
        *b.left,
    ) && *b.right is Null
}

/// `i = new D();`
pub open spec fn is_new_d_assign(s: Stmt) -> bool {
    &&& s matches Stmt::Assign(a)
    &&& !a.this
    &&& a.ident.str@ == "i"@
    &&& a.expr matches Expr::Eff(EffExpr::New(n))
    &&& !n.local
    &&& n.ty.str@ == "D"@
    &&& n.args@.len() == 0
}

/// An `if` whose condition is `i == null`.
pub open spec fn is_null_check(s: Stmt) -> bool {
    s matches Stmt::If(f) && is_null_check_cond(f.condition)
}

/// `s` is a block of statements that are each `stmt_ok` at `depth`.
pub open spec fn block_ok(s: Stmt, sc: Seq<EntryModel>, depth: nat, lim: Limits) -> bool {
    s matches Stmt::Block(b) && stmts_ok(b.stmts@, b.stmts@.len(), seq![], sc, depth, lim)
}

/// `if (i == null) { ...; i = new D(); } [else { ... }]` with both blocks at depth one.
pub open spec fn null_check_ok(s: Stmt, sc: Seq<EntryModel>, lim: Limits) -> bool {
    &&& s matches Stmt::If(f)
    &&& is_null_check_cond(f.condition)
    &&& *f.then_branch matches Stmt::Block(b)
    &&& b.stmts@.len() >= 1
    &&& stmts_ok(b.stmts@, (b.stmts@.len() - 1) as nat, seq![], sc, 1, lim)
    &&& is_new_d_assign(b.stmts@.last())
    &&& f.else_branch matches Some(e) ==> block_ok(*e, sc, 1, lim)
}

/// `s` is a block whose length, less `extra` trailing statements, is an
/// outcome of `exp_rand_int(mean)`.
pub open spec fn sampled_block(s: Stmt, mean: u32, extra: nat) -> bool {
    s matches Stmt::Block(b) && b.stmts@.len() >= extra && is_exp_outcome(mean, (b.stmts@.len() - extra) as nat)
}

/// The length of a block statement.
pub open spec fn block_len(s: Stmt) -> int {
    match s {
        Stmt::Block(b) => b.stmts@.len() as int,
        _ => -1,
    }
}

/// An `if` whose branches hold nothing but, for the null check, the final
/// `i = new D();`.
pub open spec fn empty_branches(s: Stmt) -> bool {
    s matches Stmt::If(f) ==> {
        &&& block_len(*f.then_branch) == if is_null_check(s) { 1int } else { 0int }
        &&& f.else_branch matches Some(e) ==> block_len(*e) == 0
    }
}

/// What the dispatcher may emit at `depth`: a `stmt_ok` statement, or at the
/// top level, below the depth limit, the null check.
pub open spec fn stmt_allowed(s: Stmt, sc: Seq<EntryModel>, depth: nat, lim: Limits) -> bool {
    ||| stmt_ok(s, sc, depth, lim)
    ||| depth == 0 && 0 < lim.max_depth && null_check_ok(s, sc, lim)
}

/// The first `n` statements are each allowed in the scope at their place.
pub open spec fn allowed_stmts(
    ss: Seq<Stmt>,
    n: nat,
    base: Seq<EntryModel>,
    outer: Seq<EntryModel>,
    depth: nat,
    lim: Limits,
) -> bool
    decreases n,
{
    if n == 0 {
        true
    } else if n > ss.len() {
        false
    } else {
        allowed_stmts(ss, (n - 1) as nat, base, outer, depth, lim) && stmt_allowed(
            ss[n - 1],
            scope_at(ss, (n - 1) as nat, base, outer),
            depth,
            lim,
        )
    }
}

/// How many of the first `n` statements are null checks.
pub open spec fn count_nc(ss: Seq<Stmt>, n: nat) -> nat
    decreases n,
{
    if n == 0 || n > ss.len() {
        0
    } else {
        count_nc(ss, (n - 1) as nat) + if is_null_check(ss[n - 1]) { 1nat } else { 0nat }
    }
}

/// `return i;`
pub open spec fn is_return_param(s: Stmt) -> bool {
    s matches Stmt::Return(r) && r.expr matches Expr::Pure(p) && is_param_use(p)
}

/// The entries that every generated body starts from: six fields and four
/// callables.
pub open spec fn seed_scope() -> Seq<EntryModel> {
    let none = Seq::<TyKey>::empty();
    seq![
        EntryModel { kind: EntryKind::Field, name: "fint"@, ty: int_key(), recv: none, args: none },
        EntryModel { kind: EntryKind::Field, name: "fb"@, ty: bool_key(), recv: none, args: none },
        EntryModel { kind: EntryKind::Field, name: "ff"@, ty: fut_key("Int"@), recv: none, args: none },
        EntryModel { kind: EntryKind::Field, name: "ffb"@, ty: fut_key("Bool"@), recv: none, args: none },
        EntryModel { kind: EntryKind::Field, name: "fi"@, ty: i_key(), recv: none, args: none },
        EntryModel { kind: EntryKind::Field, name: "fj"@, ty: j_key(), recv: none, args: none },
        EntryModel { kind: EntryKind::Fn, name: "n"@, ty: int_key(), recv: seq![i_key()], args: none },
        EntryModel { kind: EntryKind::Fn, name: "b"@, ty: bool_key(), recv: seq![i_key()], args: none },
        EntryModel { kind: EntryKind::Fn, name: "m"@, ty: ("Unit"@, Seq::empty()), recv: seq![j_key()], args: seq![int_key()] },
        EntryModel { kind: EntryKind::Fn, name: "getI"@, ty: i_key(), recv: seq![j_key()], args: seq![bool_key(), int_key()] },
    ]
}

/// A generated method body: statements that are each allowed where they
/// stand, exactly one null check among them (appended last when the random
/// phase made none), and `return i;` at the end.
pub open spec fn body_ok(ss: Seq<Stmt>, lim: Limits) -> bool {
    let n = ss.len();
    &&& n >= 2
    &&& is_return_param(ss[n - 1])
    &&& count_nc(ss, (n - 1) as nat) == 1
    &&& {
        ||| allowed_stmts(ss, (n - 1) as nat, seed_scope(), seq![], 0, lim)
        ||| allowed_stmts(ss, (n - 2) as nat, seed_scope(), seq![], 0, lim) && count_nc(ss, (n - 2) as nat) == 0
            && null_check_ok(ss[n - 2], scope_at(ss, (n - 2) as nat, seed_scope(), seq![]), lim)
    }
}

// ---- lemmas ----

pub proof fn lemma_locals_push(ss: Seq<Stmt>, s: Stmt, n: nat)
    requires
        n <= ss.len(),
    ensures
        locals(ss.push(s), n) == locals(ss, n),
    decreases n,
{
    if n > 0 {
        lemma_locals_push(ss, s, (n - 1) as nat);
        assert(ss.push(s)[n - 1] == ss[n - 1]);
    }
}

pub proof fn lemma_count_push(ss: Seq<Stmt>, s: Stmt, n: nat)
    requires
        n <= ss.len(),
    ensures
        count_nc(ss.push(s), n) == count_nc(ss, n),
    decreases n,
{
    if n > 0 {
        lemma_count_push(ss, s, (n - 1) as nat);
        assert(ss.push(s)[n - 1] == ss[n - 1]);
    }
}

pub proof fn lemma_stmts_push(
    ss: Seq<Stmt>,
    s: Stmt,
    n: nat,
    base: Seq<EntryModel>,
    outer: Seq<EntryModel>,
    depth: nat,
    lim: Limits,
)
    requires
        n <= ss.len(),
    ensures
        stmts_ok(ss.push(s), n, base, outer, depth, lim) == stmts_ok(ss, n, base, outer, depth, lim),
        allowed_stmts(ss.push(s), n, base, outer, depth, lim) == allowed_stmts(ss, n, base, outer, depth, lim),
    decreases n,
{
    if n > 0 {
        lemma_stmts_push(ss, s, (n - 1) as nat, base, outer, depth, lim);
        lemma_locals_push(ss, s, (n - 1) as nat);
        assert(ss.push(s)[n - 1] == ss[n - 1]);
    }
}

/// Below the top level, allowed statements are `stmt_ok`.
pub proof fn lemma_allowed_nested(
    ss: Seq<Stmt>,
    n: nat,
    base: Seq<EntryModel>,
    outer: Seq<EntryModel>,
    depth: nat,
    lim: Limits,
)
    requires
        depth > 0,
        allowed_stmts(ss, n, base, outer, depth, lim),
    ensures
        stmts_ok(ss, n, base, outer, depth, lim),
        count_nc(ss, n) == 0,
    decreases n,
{
    if n > 0 {
        lemma_allowed_nested(ss, (n - 1) as nat, base, outer, depth, lim);
        lemma_stmt_ok_not_null_check(ss[n - 1], scope_at(ss, (n - 1) as nat, base, outer), depth, lim);
    }
}

/// The condition `i == null` is not a well-scoped expression: `null` has
/// no type of the menu. So a `stmt_ok` statement is never the null check.
pub proof fn lemma_stmt_ok_not_null_check(s: Stmt, sc: Seq<EntryModel>, depth: nat, lim: Limits)
    requires
        stmt_ok(s, sc, depth, lim),
    ensures
        !is_null_check(s),
{
    if let Stmt::If(f) = s {
        if is_null_check_cond(f.condition) {
            if let PureExpr::Operator(OperatorExpr::Binary(b)) = f.condition {
                assert(!pure_ok(f.condition, bool_key(), sc)) by {
                    reveal_with_fuel(pure_ok, 2);
                }
            }
        }
    }
}


/// Adding a variable to the innermost frame keeps the scope ready.
pub proof fn lemma_ready_push(front: Seq<EntryModel>, m: EntryModel, back: Seq<EntryModel>)
    requires
        scope_ready(front + back),
        m.kind != EntryKind::Fn,
    ensures
        scope_ready(front.push(m) + back),
{
    let old_sc = front + back;
    let new_sc = front.push(m) + back;
    let f = front.len();
    assert forall|i: int| 0 <= i < old_sc.len() implies new_sc[if i < f { i } else { i + 1 }] == #[trigger] old_sc[i] by {
        if i < f {
            assert(new_sc[i] == front[i]);
        } else {
            assert(new_sc[i + 1] == back[i - f]);
        }
    }
    assert forall|k: TyKey| #[trigger] has_var_of(old_sc, k) implies has_var_of(new_sc, k) by {
        let w = choose|w: int| 0 <= w < old_sc.len() && #[trigger] old_sc[w].kind != EntryKind::Fn && old_sc[w].ty == k;
        let w2 = if w < f { w } else { w + 1 };
        assert(new_sc[w2] == old_sc[w]);
        assert(new_sc[w2].kind != EntryKind::Fn);
    }
    assert forall|i: int| 0 <= i < new_sc.len() && #[trigger] new_sc[i].kind == EntryKind::Fn implies {
        &&& new_sc[i].recv.len() > 0
        &&& forall|j: int| 0 <= j < new_sc[i].recv.len() ==> is_base(#[trigger] new_sc[i].recv[j])
        &&& forall|j: int| 0 <= j < new_sc[i].args.len() ==> is_base(#[trigger] new_sc[i].args[j])
    } by {
        if i < f {
            assert(new_sc[i] == old_sc[i]);
            assert(old_sc[i].kind == EntryKind::Fn);
        } else if i == f {
            assert(new_sc[i] == m);
        } else {
            assert(new_sc[i] == old_sc[i - 1]);
            assert(old_sc[i - 1].kind == EntryKind::Fn);
        }
    }
}


/// The seed entries make a ready scope.
pub proof fn lemma_seed_ready()
    ensures
        scope_ready(seed_scope()),
{
    let sc = seed_scope();
    assert(sc[0].kind != EntryKind::Fn && sc[0].ty == int_key());
    assert(sc[1].kind != EntryKind::Fn && sc[1].ty == bool_key());
    assert(sc[4].kind != EntryKind::Fn && sc[4].ty == i_key());
    assert(sc[5].kind != EntryKind::Fn && sc[5].ty == j_key());
}

/// Where no statement is an `if`, none is a null check.
pub proof fn lemma_count_no_if(ss: Seq<Stmt>, n: nat)
    requires
        n <= ss.len(),
        forall|j: int| 0 <= j < n ==> !(#[trigger] ss[j] is If),
    ensures
        count_nc(ss, n) == 0,
    decreases n,
{
    if n > 0 {
        lemma_count_no_if(ss, (n - 1) as nat);
    }
}

/// With a depth limit of zero, no allowed statement is an `if`.
pub proof fn lemma_no_if_at_zero(
    ss: Seq<Stmt>,
    n: nat,
    base: Seq<EntryModel>,
    outer: Seq<EntryModel>,
    lim: Limits,
)
    requires
        lim.max_depth == 0,
        allowed_stmts(ss, n, base, outer, 0, lim),
    ensures
        forall|j: int| 0 <= j < n ==> !(#[trigger] ss[j] is If),
        count_nc(ss, n) == 0,
    decreases n,
{
    if n > 0 {
        lemma_no_if_at_zero(ss, (n - 1) as nat, base, outer, lim);
    }
}

} // verus!

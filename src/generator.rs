//! The method-body synthesiser: well-typed, well-scoped random statements
//! and expressions.
use vstd::prelude::*;
use vstd::string::*;
use crate::ast::{
    Annotations, AssignStmt, AsyncCallExpr, BinaryExpr, BinaryOp, Block, EffExpr, Expr, GetExpr,
    IdentExpr, IfStmt, Literal, OperatorExpr, PureExpr, ReturnStmt, Stmt, SyncCallExpr, Type,
    UnaryExpr, UnaryOp, VarDeclStmt, is_bool_spec, is_fut_spec, is_int_spec,
};
use crate::chance::{PPM, chance, choose_index, exp_rand_int, is_exp_outcome, seeded};
use crate::gen;
use crate::scope::{NAME_SPACE, Scope, ScopeEntry, copy_keyed, flat, keys_of, plain_model};
use crate::text::small_int_text;
use crate::typing::{
    EntryKind, EntryModel, Limits, TyKey, allowed_stmts, body_ok, bool_key, call_fits, count_nc,
    expr_ok, fresh, fut_key, has_var_of, i_key, int_key, is_base, is_menu, is_null_check,
    is_return_param, j_key, key, lemma_allowed_nested, lemma_count_push, lemma_locals_one,
    lemma_locals_push, lemma_no_if_at_zero, lemma_count_no_if, lemma_ready_push, lemma_seed_ready,
    lemma_stmt_ok_not_null_check, lemma_stmts_push, sampled_block, empty_branches, lit_ok, local_of, locals, null_check_ok,
    pure_ok, scope_at, scope_ready, seed_scope, stmt_allowed, stmt_ok, stmts_ok, var_model, wf_ty,
};

verus! {

/// Which static analyser the output is written for.
#[derive(Clone, Copy, PartialEq, Eq, Structural, Debug)]
pub enum Target {
    /// Typed `[Spec: ...]` annotations for the deductive verifier.
    Crowbar,
    /// Untyped `[NonNull]` / `[Nullable]` annotations.
    NullableExtension,
    /// No annotations, and no calls or future resolutions at all: no
    /// `e.m(..)`, no `e!m(..)`, no `e.get`.
    Location,
}

/// What the generator produces; rates are in parts per million.
#[derive(Clone, Copy)]
pub struct Options {
    pub num_rand_classes: u32,
    pub max_depth: u8,
    pub branch_rate: u32,
    pub declare_to_assign: u32,
    pub else_ratio: u32,
    pub avg_meth_body_size: u32,
    pub avg_block_size: u32,
    pub target: Target,
    /// Whether the `or` and `and` layers emit `||` and `&&`; by default they
    /// emit `==`, which keeps the corpus comparable with earlier runs.
    pub logical_ops: bool,
}

pub const NUM_RAND_CLASSES: u32 = 100;
pub const MAX_DEPTH: u8 = 3;
pub const BRANCH_RATE: u32 = 200000;
pub const DECLARE_TO_ASSIGN: u32 = 300000;
pub const ELSE_RATIO: u32 = 700000;
pub const AVG_METH_BODY_SIZE: u32 = 10;
pub const AVG_BLOCK_SIZE: u32 = 4;

impl Default for Options {
    fn default() -> (r: Self)
        ensures
            r.num_rand_classes == NUM_RAND_CLASSES,
            r.max_depth == MAX_DEPTH,
            r.branch_rate == BRANCH_RATE,
            r.declare_to_assign == DECLARE_TO_ASSIGN,
            r.else_ratio == ELSE_RATIO,
            r.avg_meth_body_size == AVG_METH_BODY_SIZE,
            r.avg_block_size == AVG_BLOCK_SIZE,
            r.target == Target::NullableExtension,
            !r.logical_ops,
    {
        Options {
            num_rand_classes: NUM_RAND_CLASSES,
            max_depth: MAX_DEPTH,
            branch_rate: BRANCH_RATE,
            declare_to_assign: DECLARE_TO_ASSIGN,
            else_ratio: ELSE_RATIO,
            avg_meth_body_size: AVG_METH_BODY_SIZE,
            avg_block_size: AVG_BLOCK_SIZE,
            target: Target::NullableExtension,
            logical_ops: false,
        }
    }
}

impl Options {
    pub open spec fn limits(self) -> Limits {
        Limits { max_depth: self.max_depth as nat, allow_calls: self.target != Target::Location }
    }
}

/// Levels that each recursive layer of the expression synthesiser may nest;
/// past them a layer hands on to the next one, as when its coin fails.
pub const EXPR_FUEL: u32 = 32;

/// Distinct names of the fixed world.
pub proof fn lemma_names_distinct()
    ensures
        "Int"@ != "Fut"@,
        "Bool"@ != "Fut"@,
        "I"@ != "Fut"@,
        "J"@ != "Fut"@,
        "Unit"@ != "Fut"@,
        "Int"@ != "Bool"@,
        "I"@ != "J"@,
        "I"@ != "Int"@,
        "I"@ != "Bool"@,
        "J"@ != "Int"@,
        "J"@ != "Bool"@,
        "Fut"@.len() == 3,
{
    reveal_strlit("Int");
    reveal_strlit("Fut");
    reveal_strlit("Bool");
    reveal_strlit("I");
    reveal_strlit("J");
    reveal_strlit("Unit");
    assert("Int"@[0] != "Fut"@[0]);
    assert("Bool"@.len() != "Fut"@.len());
    assert("I"@.len() != "Fut"@.len());
    assert("J"@.len() != "Fut"@.len());
    assert("Unit"@.len() != "Fut"@.len());
    assert("Int"@.len() != "Bool"@.len());
    assert("I"@[0] != "J"@[0]);
    assert("I"@.len() != "Int"@.len());
    assert("I"@.len() != "Bool"@.len());
    assert("J"@.len() != "Int"@.len());
    assert("J"@.len() != "Bool"@.len());
}

/// Whether `ty` is one of the interfaces `I` and `J`.
pub fn ty_is_obj(ty: &Type) -> (r: bool)
    ensures
        r == (ty.ident.str@ == "I"@ || ty.ident.str@ == "J"@),
{
    crate::ast::text_is(&ty.ident.str, "I") || crate::ast::text_is(&ty.ident.str, "J")
}

impl Type {
    /// A random literal of this type: an integer drawn uniformly from
    /// `[-500, 500)` or a truth value; `None` for a type without literals.
    pub fn get_lit(&self, rng: &mut rand::rngs::StdRng) -> (r: Option<Literal>)
        ensures
            r is Some <==> (is_int_spec(*self) || is_bool_spec(*self)),
            r matches Some(l) ==> lit_ok(l.s@, key(*self)),
            is_int_spec(*self) ==> (r matches Some(l) && exists|n: int|
                -500 <= n < 500 && l.s@ == crate::text::decimal(n)),
            is_bool_spec(*self) ==> (r matches Some(l) && (l.s@ == "True"@ || l.s@ == "False"@)),
    {
        proof {
            lemma_names_distinct();
        }
        if self.is_int() {
            let k = choose_index(rng, 1000);
            let n: i32 = k as i32 - 500;
            let s = small_int_text(n);
            assert(key(*self) == int_key());
            Some(Literal { s })
        } else if self.is_bool() {
            let s = if choose_index(rng, 2) == 0 {
                String::from_str("True")
            } else {
                String::from_str("False")
            };
            assert(key(*self) == bool_key());
            Some(Literal { s })
        } else {
            None
        }
    }
}

/// Generates method bodies from its options and its own random stream.
pub struct RandGenerator {
    pub scope: Scope,
    pub opts: Options,
    pub has_null_check_if: bool,
    pub rng: rand::rngs::StdRng,
}

impl RandGenerator {
    pub open spec fn ready(&self) -> bool {
        self.scope.wf() && scope_ready(self.scope.visible())
    }

    /// Only the random stream moved.
    pub open spec fn same_state(&self, other: &Self) -> bool {
        self.scope == other.scope && self.opts == other.opts
            && self.has_null_check_if == other.has_null_check_if
    }

    pub fn new(opts: Options, seed: u64) -> (r: Self)
        ensures
            r.opts == opts,
            !r.has_null_check_if,
            r.scope.wf(),
            r.scope.frames() == seq![Seq::<EntryModel>::empty()],
    {
        RandGenerator { scope: Scope::new(), opts, has_null_check_if: false, rng: seeded(seed) }
    }

    /// An atom of `ty`: a literal, or a variable or field of that type.
    fn generate_atom(&mut self, ty: &Type) -> (r: PureExpr)
        requires
            old(self).ready(),
            wf_ty(*ty),
            has_var_of(old(self).scope.visible(), key(*ty)),
        ensures
            final(self).same_state(old(self)),
            pure_ok(r, key(*ty), old(self).scope.visible()),
            r matches PureExpr::Literal(l) ==> {
                ||| is_int_spec(*ty) && exists|n: int| -500 <= n < 500 && l.s@ == crate::text::decimal(n)
                ||| is_bool_spec(*ty) && (l.s@ == "True"@ || l.s@ == "False"@)
            },
            r is Literal || r is Ident,
    {
        if ty.has_lit() && chance(&mut self.rng, 700000) {
            let l = ty.get_lit(&mut self.rng);
            return PureExpr::Literal(l.unwrap());
        }
        let avail = self.scope.of_type(ty);
        let k = choose_index(&mut self.rng, avail.len());
        let e = &avail[k];
        proof {
            let sc = self.scope.visible();
            let m = e.model();
            assert(sc.contains(m));
            let w = choose|w: int| 0 <= w < sc.len() && sc[w] == m;
            assert(sc[w].kind != EntryKind::Fn && sc[w].name == e.ident.str@ && sc[w].ty == key(*ty));
        }
        PureExpr::Ident(IdentExpr { ident: crate::ast::copy_ident(&e.ident) })
    }

    /// Unary minus, disabled: its coin has probability zero.
    fn generate_unary_minus(&mut self, ty: &Type) -> (r: PureExpr)
        requires
            old(self).ready(),
            wf_ty(*ty),
            has_var_of(old(self).scope.visible(), key(*ty)),
        ensures
            final(self).same_state(old(self)),
            pure_ok(r, key(*ty), old(self).scope.visible()),
    {
        if ty.is_int() && chance(&mut self.rng, 0) {
            proof { lemma_names_distinct(); }
            let e = self.generate_atom(ty);
            PureExpr::Operator(OperatorExpr::Unary(UnaryExpr {
                op: UnaryOp::Minus,
                expr: Box::new(e),
            }))
        } else {
            self.generate_atom(ty)
        }
    }

    /// `mulDiv(Int) * unaryMinus(Int)` with probability 0.2 on `Int`.
    fn generate_mul_div(&mut self, ty: &Type, fuel: u32) -> (r: PureExpr)
        requires
            old(self).ready(),
            wf_ty(*ty),
            has_var_of(old(self).scope.visible(), key(*ty)),
        ensures
            final(self).same_state(old(self)),
            pure_ok(r, key(*ty), old(self).scope.visible()),
        decreases fuel,
    {
        if fuel > 0 && ty.is_int() && chance(&mut self.rng, 200000) {
            proof { lemma_names_distinct(); }
            let left = self.generate_mul_div(ty, fuel - 1);
            let right = self.generate_unary_minus(ty);
            PureExpr::Operator(OperatorExpr::Binary(BinaryExpr {
                op: BinaryOp::Mult,
                left: Box::new(left),
                right: Box::new(right),
            }))
        } else {
            self.generate_unary_minus(ty)
        }
    }

    /// `addSub(Int) ± mulDiv(Int)` with probability 0.2 on `Int`.
    fn generate_add_sub(&mut self, ty: &Type, fuel: u32) -> (r: PureExpr)
        requires
            old(self).ready(),
            wf_ty(*ty),
            has_var_of(old(self).scope.visible(), key(*ty)),
        ensures
            final(self).same_state(old(self)),
            pure_ok(r, key(*ty), old(self).scope.visible()),
        decreases fuel,
    {
        if fuel > 0 && ty.is_int() && chance(&mut self.rng, 200000) {
            proof { lemma_names_distinct(); }
            let op = if choose_index(&mut self.rng, 2) == 0 { BinaryOp::Plus } else { BinaryOp::Minus };
            let left = self.generate_add_sub(ty, fuel - 1);
            let right = self.generate_mul_div(ty, EXPR_FUEL);
            PureExpr::Operator(OperatorExpr::Binary(BinaryExpr {
                op,
                left: Box::new(left),
                right: Box::new(right),
            }))
        } else {
            self.generate_mul_div(ty, EXPR_FUEL)
        }
    }

    /// `¬ addSub(Bool)` with probability 0.2 on `Bool`.
    fn generate_not(&mut self, ty: &Type) -> (r: PureExpr)
        requires
            old(self).ready(),
            wf_ty(*ty),
            has_var_of(old(self).scope.visible(), key(*ty)),
        ensures
            final(self).same_state(old(self)),
            pure_ok(r, key(*ty), old(self).scope.visible()),
    {
        if ty.is_bool() && chance(&mut self.rng, 200000) {
            proof { lemma_names_distinct(); }
            let e = self.generate_add_sub(ty, EXPR_FUEL);
            PureExpr::Operator(OperatorExpr::Unary(UnaryExpr { op: UnaryOp::Not, expr: Box::new(e) }))
        } else {
            self.generate_add_sub(ty, EXPR_FUEL)
        }
    }

    /// `not(Bool) == and(Bool)` (or `&&` with `logical_ops`) with probability
    /// 0.2 on `Bool`.
    fn generate_and(&mut self, ty: &Type, fuel: u32) -> (r: PureExpr)
        requires
            old(self).ready(),
            wf_ty(*ty),
            has_var_of(old(self).scope.visible(), key(*ty)),
        ensures
            final(self).same_state(old(self)),
            pure_ok(r, key(*ty), old(self).scope.visible()),
        decreases fuel,
    {
        if fuel > 0 && ty.is_bool() && chance(&mut self.rng, 200000) {
            proof { lemma_names_distinct(); }
            let left = self.generate_not(ty);
            let right = self.generate_and(ty, fuel - 1);
            assert(key(*ty) == bool_key());
            let ghost sc = self.scope.visible();
            let ghost (gl, gr) = (left, right);
            let op = if self.opts.logical_ops { BinaryOp::And } else { BinaryOp::Eq };
            let r = PureExpr::Operator(OperatorExpr::Binary(BinaryExpr {
                op,
                left: Box::new(left),
                right: Box::new(right),
            }));
            assert(pure_ok(gl, key(*ty), sc) && pure_ok(gr, key(*ty), sc));
            assert(pure_ok(r, key(*ty), sc));
            r
        } else {
            self.generate_not(ty)
        }
    }

    /// `and(Bool) == or(Bool)` (or `||` with `logical_ops`) with probability
    /// 0.2 on `Bool`.
    fn generate_or(&mut self, ty: &Type, fuel: u32) -> (r: PureExpr)
        requires
            old(self).ready(),
            wf_ty(*ty),
            has_var_of(old(self).scope.visible(), key(*ty)),
        ensures
            final(self).same_state(old(self)),
            pure_ok(r, key(*ty), old(self).scope.visible()),
        decreases fuel,
    {
        if fuel > 0 && ty.is_bool() && chance(&mut self.rng, 200000) {
            proof { lemma_names_distinct(); }
            let left = self.generate_and(ty, EXPR_FUEL);
            let right = self.generate_or(ty, fuel - 1);
            assert(key(*ty) == bool_key());
            let ghost sc = self.scope.visible();
            let ghost (gl, gr) = (left, right);
            let op = if self.opts.logical_ops { BinaryOp::Or } else { BinaryOp::Eq };
            let r = PureExpr::Operator(OperatorExpr::Binary(BinaryExpr {
                op,
                left: Box::new(left),
                right: Box::new(right),
            }));
            assert(pure_ok(gl, key(*ty), sc) && pure_ok(gr, key(*ty), sc));
            assert(pure_ok(r, key(*ty), sc));
            r
        } else {
            self.generate_and(ty, EXPR_FUEL)
        }
    }

    /// The type in slot `i` of the menu `{Int, Int, Bool, Bool, I, J}`.
    fn menu_slot(i: usize) -> (r: Type)
        ensures
            wf_ty(r),
            is_base(key(r)),
            !is_fut_spec(r),
            i <= 1 ==> key(r) == int_key(),
    {
        proof { lemma_names_distinct(); }
        if i <= 1 {
            gen::create_int()
        } else if i <= 3 {
            gen::create_bool()
        } else if i == 4 {
            gen::create_i()
        } else {
            gen::create_j()
        }
    }

    /// A random type that has a literal form or an inhabitant in scope.
    ///
    /// The menu is `{Int, Int, Bool, Bool, I, J}`, and with `allow_fut` a
    /// future of a menu type in one draw out of five. Drawing until a type is
    /// accepted is the same as one weighted draw among the accepted types,
    /// which is what happens here.
    fn rand_avail_ty(&mut self, allow_fut: bool) -> (r: Type)
        requires
            old(self).ready(),
        ensures
            final(self).same_state(old(self)),
            wf_ty(r),
            is_menu(key(r)),
            has_var_of(old(self).scope.visible(), key(r)),
            !allow_fut ==> !is_fut_spec(r),
    {
        proof { lemma_names_distinct(); }
        let ghost sc = self.scope.visible();
        let weight: usize = if allow_fut { 4 } else { 1 };
        let mut cands: Vec<Type> = Vec::new();
        let mut i: usize = 0;
        while i < 6
            invariant
                self.ready(),
                self.scope.visible() == sc,
                weight >= 1,
                i <= 6,
                i > 0 ==> cands@.len() > 0,
                forall|k: int| 0 <= k < cands@.len() ==> {
                    &&& wf_ty(#[trigger] cands@[k])
                    &&& is_menu(key(cands@[k]))
                    &&& has_var_of(sc, key(cands@[k]))
                    &&& !is_fut_spec(cands@[k])
                },
            decreases 6 - i,
        {
            let t = Self::menu_slot(i);
            if t.has_lit() || self.scope.has_of_type(&t) {
                let mut w: usize = 0;
                while w < weight
                    invariant
                        self.ready(),
                        self.scope.visible() == sc,
                        w <= weight,
                        weight >= 1,
                        wf_ty(t),
                        is_base(key(t)),
                        !is_fut_spec(t),
                        has_var_of(sc, key(t)),
                        i > 0 || w > 0 ==> cands@.len() > 0,
                        forall|k: int| 0 <= k < cands@.len() ==> {
                            &&& wf_ty(#[trigger] cands@[k])
                            &&& is_menu(key(cands@[k]))
                            &&& has_var_of(sc, key(cands@[k]))
                            &&& !is_fut_spec(cands@[k])
                        },
                    decreases weight - w,
                {
                    cands.push(copy_keyed(&t));
                    w += 1;
                }
            }
            i += 1;
        }
        let n_base = cands.len();
        if allow_fut {
            let mut j: usize = 0;
            while j < 6
                invariant
                    self.ready(),
                    self.scope.visible() == sc,
                    j <= 6,
                    cands@.len() > 0,
                    forall|k: int| 0 <= k < cands@.len() ==> {
                        &&& wf_ty(#[trigger] cands@[k])
                        &&& is_menu(key(cands@[k]))
                        &&& has_var_of(sc, key(cands@[k]))
                    },
                decreases 6 - j,
            {
                proof { lemma_names_distinct(); }
                let slot = Self::menu_slot(j);
                let ghost gs = slot;
                let t = gen::create_fut(slot);
                assert(t.args@[0] == gs);
                assert(key(t) == fut_key(key(gs).0));
                assert(is_menu(key(t)));
                assert(!is_int_spec(t) && !is_bool_spec(t));
                if t.has_lit() || self.scope.has_of_type(&t) {
                    assert(wf_ty(t));
                    assert(has_var_of(sc, key(t)));
                    cands.push(t);
                }
                j += 1;
            }
        }
        let k = choose_index(&mut self.rng, cands.len());
        copy_keyed(&cands[k])
    }

    /// A pure expression of `ty`: with probability 0.15 each on `Bool`, an
    /// integer comparison or an equality at a random available type;
    /// otherwise the `or` layer.
    fn generate_pure_exp(&mut self, ty: &Type) -> (r: PureExpr)
        requires
            old(self).ready(),
            wf_ty(*ty),
            has_var_of(old(self).scope.visible(), key(*ty)),
        ensures
            final(self).same_state(old(self)),
            pure_ok(r, key(*ty), old(self).scope.visible()),
    {
        proof { lemma_names_distinct(); }
        let ghost sc = self.scope.visible();
        if ty.is_bool() && chance(&mut self.rng, 150000) {
            let int_ty = gen::create_int();
            let op = match choose_index(&mut self.rng, 6) {
                0 => BinaryOp::Eq,
                1 => BinaryOp::Le,
                2 => BinaryOp::Ge,
                3 => BinaryOp::Ne,
                4 => BinaryOp::Gt,
                _ => BinaryOp::Lt,
            };
            let left = self.generate_or(&int_ty, EXPR_FUEL);
            let right = self.generate_or(&int_ty, EXPR_FUEL);
            assert(key(*ty) == bool_key());
            assert(key(int_ty) == int_key());
            let ghost (gl, gr) = (left, right);
            let r = PureExpr::Operator(OperatorExpr::Binary(BinaryExpr {
                op,
                left: Box::new(left),
                right: Box::new(right),
            }));
            assert(pure_ok(gl, int_key(), sc) && pure_ok(gr, int_key(), sc));
            assert(pure_ok(r, key(*ty), sc));
            r
        } else if ty.is_bool() && chance(&mut self.rng, 150000) {
            let u = self.rand_avail_ty(true);
            let left = self.generate_or(&u, EXPR_FUEL);
            let right = self.generate_or(&u, EXPR_FUEL);
            assert(key(*ty) == bool_key());
            let ghost (gl, gr) = (left, right);
            let r = PureExpr::Operator(OperatorExpr::Binary(BinaryExpr {
                op: BinaryOp::Eq,
                left: Box::new(left),
                right: Box::new(right),
            }));
            assert(pure_ok(gl, key(u), sc) && pure_ok(gr, key(u), sc));
            assert(pure_ok(r, key(*ty), sc));
            r
        } else {
            self.generate_or(ty, EXPR_FUEL)
        }
    }

    /// A receiver and arguments for the callable `f`, each a pure
    /// expression of the declared type.
    fn generate_call_parts(&mut self, f: &ScopeEntry) -> (r: (PureExpr, Vec<PureExpr>))
        requires
            old(self).ready(),
            f.wf(),
            f.kind == EntryKind::Fn,
            old(self).scope.visible().contains(f.model()),
        ensures
            final(self).same_state(old(self)),
            exists|j: int| 0 <= j < f.model().recv.len() && pure_ok(r.0, #[trigger] f.model().recv[j], old(self).scope.visible()),
            r.1@.len() == f.model().args.len(),
            forall|j: int| 0 <= j < r.1@.len() ==> pure_ok(#[trigger] r.1@[j], f.model().args[j], old(self).scope.visible()),
    {
        proof { lemma_names_distinct(); }
        let ghost sc = self.scope.visible();
        let ghost m = f.model();
        proof {
            let w = choose|w: int| 0 <= w < sc.len() && sc[w] == m;
            assert(sc[w].kind == EntryKind::Fn);
        }
        let k = choose_index(&mut self.rng, f.defined_for.len());
        let recv_ty = copy_keyed(&f.defined_for[k]);
        assert(m.recv[k as int] == key(f.defined_for@[k as int]));
        assert(is_base(m.recv[k as int]));
        let callee = self.generate_pure_exp(&recv_ty);
        let mut args: Vec<PureExpr> = Vec::new();
        let mut j: usize = 0;
        while j < f.args.len()
            invariant
                self.ready(),
                self.scope.visible() == sc,
                self.same_state(old(self)),
                m == f.model(),
                f.wf(),
                sc.contains(m),
                m.kind == EntryKind::Fn,
                forall|a: int| 0 <= a < m.args.len() ==> is_base(#[trigger] m.args[a]),
                j <= f.args@.len(),
                args@.len() == j,
                forall|a: int| 0 <= a < j ==> pure_ok(#[trigger] args@[a], m.args[a], sc),
            decreases f.args@.len() - j,
        {
            let t = copy_keyed(&f.args[j]);
            assert(m.args[j as int] == key(f.args@[j as int]));
            let a = self.generate_pure_exp(&t);
            args.push(a);
            j += 1;
        }
        (callee, args)
    }

    /// An expression of `ty` for the right-hand side of a declaration or an
    /// assignment: a future resolution, an object creation, an asynchronous
    /// call or a synchronous call where they fit and their coins fall, else a
    /// pure expression. Under the `Location` target no call and no future
    /// resolution is emitted: only object creations and pure expressions.
    fn generate_expr(&mut self, ty: &Type) -> (r: Expr)
        requires
            old(self).ready(),
            wf_ty(*ty),
            has_var_of(old(self).scope.visible(), key(*ty)),
        ensures
            final(self).same_state(old(self)),
            expr_ok(r, key(*ty), old(self).scope.visible(), old(self).opts.limits().allow_calls),
    {
        proof { lemma_names_distinct(); }
        let ghost sc = self.scope.visible();
        let calls = self.opts.target != Target::Location;
        let fut_ty = gen::create_fut(copy_keyed(ty));
        if calls && !ty.is_fut() && self.scope.has_of_type(&fut_ty) && chance(&mut self.rng, 100000) {
            assert(key(fut_ty) == fut_key(key(*ty).0));
            let e = self.generate_pure_exp(&fut_ty);
            return Expr::Eff(EffExpr::Get(GetExpr { expr: e }));
        }
        if ty_is_obj(ty) && chance(&mut self.rng, 500000) {
            let name = if crate::ast::text_is(&ty.ident.str, "I") { "D" } else { "E" };
            return Expr::Eff(EffExpr::New(gen::start_new_expr(false, name).complete()));
        }
        if calls && ty.is_fut() && chance(&mut self.rng, 700000) {
            let fs = self.scope.fn_of_type(&ty.args[0]);
            if fs.len() > 0 {
                let k = choose_index(&mut self.rng, fs.len());
                let f = &fs[k];
                let (callee, args) = self.generate_call_parts(f);
                let ghost (gc, ga) = (callee, args);
                let c = AsyncCallExpr { callee, method: crate::ast::copy_ident(&f.ident), args };
                assert(key(f.ty).0 == f.ty.ident.str@);
                assert(call_fits(f.model(), gc, c.method, ga@, key(*ty).1, sc));
                return Expr::Eff(EffExpr::AsyncCall(c));
            }
        }
        if calls && chance(&mut self.rng, 100000) {
            let fs = self.scope.fn_of_type(ty);
            if fs.len() > 0 {
                let k = choose_index(&mut self.rng, fs.len());
                let f = &fs[k];
                let (callee, args) = self.generate_call_parts(f);
                let ghost (gc, ga) = (callee, args);
                let c = SyncCallExpr { callee, method: crate::ast::copy_ident(&f.ident), args };
                assert(key(f.ty).0 == f.ty.ident.str@);
                assert(call_fits(f.model(), gc, c.method, ga@, key(*ty).0, sc));
                return Expr::Eff(EffExpr::SyncCall(c));
            }
        }
        Expr::Pure(self.generate_pure_exp(ty))
    }

    /// Room left below the depth limit, counting the innermost frame.
    pub open spec fn room(&self) -> nat {
        let d = self.scope.stack@.len() as int - 1;
        if d <= self.opts.max_depth as int + 1 {
            (self.opts.max_depth as int + 1 - d) as nat
        } else {
            0
        }
    }

    /// What the options force on a statement made at depth `d`: an `if`
    /// when branching is certain below the depth limit, none when it is
    /// impossible, and empty branches
    /// when nested blocks have mean size zero.
    pub open spec fn dispatch_shape(opts: Options, d: nat, s: Stmt) -> bool {
        &&& opts.branch_rate >= PPM && d < opts.max_depth ==> s is If
        &&& opts.branch_rate == 0 ==> !(s is If)
        &&& opts.avg_block_size == 0 ==> empty_branches(s)
    }

    pub open spec fn depth_spec(&self) -> nat {
        (self.scope.stack@.len() - 1) as nat
    }

    /// The scope after a statement: its declaration, if any, joins the
    /// innermost frame.
    pub open spec fn after(&self, old_self: &Self, ss: Seq<Stmt>) -> bool {
        &&& self.ready()
        &&& self.opts == old_self.opts
        &&& self.scope.frames() == old_self.scope.frames().drop_last().push(
            old_self.scope.frames().last() + locals(ss, ss.len()),
        )
    }

    /// `T x = e;` for a random available type, a fresh name and an
    /// expression of that type; an assignment only in a scope of `NAME_SPACE`
    /// entries or more, where no fresh name may be left.
    pub fn generate_decl(&mut self) -> (r: Stmt)
        requires
            old(self).ready(),
        ensures
            final(self).after(old(self), seq![r]),
            final(self).has_null_check_if == old(self).has_null_check_if,
            stmt_ok(r, old(self).scope.visible(), old(self).depth_spec(), old(self).opts.limits()),
            r is VarDecl || r is Assign,
            old(self).scope.visible().len() < NAME_SPACE ==> r is VarDecl,
    {
        let ghost sc = self.scope.visible();
        let ty = self.rand_avail_ty(true);
        let ident = match self.scope.free_var_ident(&mut self.rng) {
            Some(x) => x,
            None => return self.generate_assign(),
        };
        let init = self.generate_expr(&ty);
        let ghost (gi, gty, gid) = (init, ty, ident);
        let ty2 = copy_keyed(&ty);
        let ident2 = crate::ast::copy_ident(&ident);
        let ghost (gty2, gid2) = (ty2, ident2);
        self.scope.define_var(ty2, ident2);
        let d = VarDeclStmt { annotations: Annotations::default(), ty, ident, init: Some(init) };
        let r = Stmt::VarDecl(d);
        proof {
            let m = var_model(d);
            assert(plain_model(EntryKind::Var, gty2, gid2) == m);
            let fs = old(self).scope.frames();
            assert(self.scope.visible() == fs.drop_last().push(fs.last().push(m)).last() + flat(fs.drop_last().push(fs.last().push(m)).drop_last()));
            assert(fs.drop_last().push(fs.last().push(m)).drop_last() =~= fs.drop_last());
            assert(sc == fs.last() + flat(fs.drop_last()));
            lemma_ready_push(fs.last(), m, flat(fs.drop_last()));
            lemma_locals_one(r);
            assert(local_of(r) =~= seq![m]);
            assert(fs.last().push(m) =~= fs.last() + seq![m]);
        }
        r
    }

    /// `x = e;` for a random variable or field and an expression of its type.
    pub fn generate_assign(&mut self) -> (r: Stmt)
        requires
            old(self).ready(),
        ensures
            final(self).after(old(self), seq![r]),
            final(self).has_null_check_if == old(self).has_null_check_if,
            stmt_ok(r, old(self).scope.visible(), old(self).depth_spec(), old(self).opts.limits()),
            r is Assign,
            final(self).scope.frames() == old(self).scope.frames(),
    {
        let ghost sc = self.scope.visible();
        proof {
            let w = choose|w: int| 0 <= w < sc.len() && #[trigger] sc[w].kind != EntryKind::Fn && sc[w].ty == int_key();
        }
        let entry = self.scope.get_assignable_ident(&mut self.rng);
        proof {
            let w = choose|w: int| 0 <= w < sc.len() && sc[w] == entry.model();
            assert(sc[w].kind != EntryKind::Fn && sc[w].ty == key(entry.ty));
        }
        let expr = self.generate_expr(&entry.ty);
        let a = AssignStmt { this: false, ident: crate::ast::copy_ident(&entry.ident), expr };
        proof {
            let w = choose|w: int| 0 <= w < sc.len() && sc[w] == entry.model();
            assert(sc[w].kind != EntryKind::Fn && sc[w].name == a.ident.str@);
            let fs = old(self).scope.frames();
            lemma_locals_one(Stmt::Assign(a));
            assert(fs.last() + Seq::<EntryModel>::empty() =~= fs.last());
            assert(fs.drop_last().push(fs.last()) =~= fs);
        }
        Stmt::Assign(a)
    }

    /// A generic `if`: a `Bool` condition, a nested block, and with
    /// probability `else_ratio` an `else` block.
    pub fn generate_if(&mut self) -> (r: Stmt)
        requires
            old(self).ready(),
            old(self).depth_spec() < old(self).opts.max_depth,
        ensures
            final(self).after(old(self), seq![r]),
            final(self).has_null_check_if == old(self).has_null_check_if,
            stmt_ok(r, old(self).scope.visible(), old(self).depth_spec(), old(self).opts.limits()),
            r matches Stmt::If(f) && sampled_block(*f.then_branch, old(self).opts.avg_block_size, 0),
            r matches Stmt::If(f) && (f.else_branch matches Some(e) ==> sampled_block(*e, old(self).opts.avg_block_size, 0)),
            old(self).opts.else_ratio == 0 ==> (r matches Stmt::If(f) && f.else_branch is None),
            old(self).opts.avg_block_size == 0 ==> empty_branches(r),
        decreases old(self).room(), 2nat,
    {
        proof { lemma_names_distinct(); }
        let ghost sc = self.scope.visible();
        let bool_ty = gen::create_bool();
        assert(key(bool_ty) == bool_key());
        let condition = self.generate_pure_exp(&bool_ty);
        let then_block = self.generate_block();
        let else_branch = if chance(&mut self.rng, self.opts.else_ratio) {
            Some(Box::new(Stmt::Block(self.generate_block())))
        } else {
            None
        };
        let r = Stmt::If(IfStmt {
            condition,
            then_branch: Box::new(Stmt::Block(then_block)),
            else_branch,
        });
        proof {
            let fs = old(self).scope.frames();
            lemma_locals_one(r);
            lemma_stmt_ok_not_null_check(r, sc, old(self).depth_spec(), old(self).opts.limits());
            assert(fs.last() + Seq::<EntryModel>::empty() =~= fs.last());
            assert(fs.drop_last().push(fs.last()) =~= fs);
        }
        r
    }

    /// The null check `if (i == null) { ...; i = new D(); } [else {...}]`.
    pub fn generate_null_check_if(&mut self) -> (r: Stmt)
        requires
            old(self).ready(),
            old(self).depth_spec() == 0,
        ensures
            final(self).after(old(self), seq![r]),
            final(self).has_null_check_if,
            null_check_ok(r, old(self).scope.visible(), old(self).opts.limits()),
            is_null_check(r),
            r matches Stmt::If(f) && sampled_block(*f.then_branch, old(self).opts.avg_block_size, 1),
            r matches Stmt::If(f) && (f.else_branch matches Some(e) ==> sampled_block(*e, old(self).opts.avg_block_size, 0)),
            old(self).opts.else_ratio == 0 ==> (r matches Stmt::If(f) && f.else_branch is None),
            old(self).opts.avg_block_size == 0 ==> empty_branches(r),
        decreases old(self).room(), 2nat,
    {
        let ghost sc = self.scope.visible();
        self.has_null_check_if = true;
        let condition = PureExpr::Operator(OperatorExpr::Binary(BinaryExpr {
            op: BinaryOp::Eq,
            left: Box::new(PureExpr::Ident(gen::create_var_use("i"))),
            right: Box::new(gen::create_null()),
        }));
        let mut then_block = self.generate_block();
        let ghost inner = then_block.stmts@;
        let new_d = Expr::Eff(EffExpr::New(gen::start_new_expr(false, "D").complete()));
        let assign = Stmt::Assign(gen::create_assign("i", new_d));
        then_block.stmts.push(assign);
        proof {
            lemma_stmts_push(inner, assign, inner.len(), seq![], sc, 1, self.opts.limits());
        }
        let else_branch = if chance(&mut self.rng, self.opts.else_ratio) {
            Some(Box::new(Stmt::Block(self.generate_block())))
        } else {
            None
        };
        let r = Stmt::If(IfStmt {
            condition,
            then_branch: Box::new(Stmt::Block(then_block)),
            else_branch,
        });
        proof {
            let fs = old(self).scope.frames();
            lemma_locals_one(r);
            assert(fs.last() + Seq::<EntryModel>::empty() =~= fs.last());
            assert(fs.drop_last().push(fs.last()) =~= fs);
        }
        r
    }

    /// A nested block of `expInt(avg_block_size)` statements.
    pub fn generate_block(&mut self) -> (r: Block)
        requires
            old(self).ready(),
            old(self).depth_spec() <= old(self).opts.max_depth,
        ensures
            final(self).ready(),
            final(self).opts == old(self).opts,
            final(self).scope.frames() == old(self).scope.frames(),
            final(self).has_null_check_if == old(self).has_null_check_if,
            stmts_ok(r.stmts@, r.stmts@.len(), seq![], old(self).scope.visible(), old(self).depth_spec() + 1, old(self).opts.limits()),
            is_exp_outcome(old(self).opts.avg_block_size, r.stmts@.len()),
            old(self).opts.avg_block_size == 0 ==> r.stmts@.len() == 0,
        decreases old(self).room(), 1nat,
    {
        let size = exp_rand_int(&mut self.rng, self.opts.avg_block_size);
        self.generate_sized_block(size).complete()
    }

    /// A nested block of exactly `size` statements in a frame of its own.
    pub fn generate_sized_block(&mut self, size: u64) -> (r: gen::BlockBuilder)
        requires
            old(self).ready(),
            old(self).depth_spec() <= old(self).opts.max_depth,
        ensures
            final(self).ready(),
            final(self).opts == old(self).opts,
            final(self).scope.frames() == old(self).scope.frames(),
            final(self).has_null_check_if == old(self).has_null_check_if,
            r.stmts@.len() == size,
            stmts_ok(r.stmts@, r.stmts@.len(), seq![], old(self).scope.visible(), old(self).depth_spec() + 1, old(self).opts.limits()),
        decreases old(self).room(), 0nat,
    {
        let ghost sc = self.scope.visible();
        let ghost fs = self.scope.frames();
        self.scope.open();
        proof {
            assert(self.scope.frames().last() == Seq::<EntryModel>::empty());
            assert(self.scope.frames().drop_last() =~= fs);
        }
        let stmts = self.fill(size);
        proof {
            lemma_allowed_nested(stmts@, stmts@.len(), seq![], sc, (self.depth_spec()) as nat, self.opts.limits());
            assert(self.scope.frames().drop_last() =~= fs);
        }
        self.scope.close();
        gen::BlockBuilder { stmts }
    }

    /// `size` statements in the innermost frame, each from the dispatcher.
    fn fill(&mut self, size: u64) -> (r: Vec<Stmt>)
        requires
            old(self).ready(),
            old(self).depth_spec() <= old(self).opts.max_depth + 1,
        ensures
            final(self).after(old(self), r@),
            r@.len() == size,
            allowed_stmts(r@, r@.len(), old(self).scope.frames().last(), flat(old(self).scope.frames().drop_last()), old(self).depth_spec(), old(self).opts.limits()),
            final(self).has_null_check_if == (old(self).has_null_check_if || count_nc(r@, r@.len()) > 0),
            count_nc(r@, r@.len()) <= 1,
            old(self).has_null_check_if ==> count_nc(r@, r@.len()) == 0,
            old(self).depth_spec() > 0 ==> count_nc(r@, r@.len()) == 0,
            forall|j: int| 0 <= j < r@.len() ==> Self::dispatch_shape(old(self).opts, old(self).depth_spec(), #[trigger] r@[j]),
        decreases old(self).room(), 4nat,
    {
        let ghost fs = self.scope.frames();
        let ghost base = fs.last();
        let ghost outer = flat(fs.drop_last());
        let ghost lim = self.opts.limits();
        let ghost d = self.depth_spec();
        let ghost flag0 = self.has_null_check_if;
        let mut stmts: Vec<Stmt> = Vec::new();
        let mut k: u64 = 0;
        proof {
            assert(locals(stmts@, 0) =~= seq![]);
            assert(base + Seq::<EntryModel>::empty() =~= base);
            assert(fs.drop_last().push(base) =~= fs);
        }
        while k < size
            invariant
                self.ready(),
                self.opts == old(self).opts,
                lim == self.opts.limits(),
                self.depth_spec() == d,
                d <= self.opts.max_depth + 1,
                self.room() == old(self).room(),
                fs == old(self).scope.frames(),
                fs.len() >= 1,
                base == fs.last(),
                outer == flat(fs.drop_last()),
                self.scope.frames() == fs.drop_last().push(base + locals(stmts@, stmts@.len())),
                k <= size,
                stmts@.len() == k,
                allowed_stmts(stmts@, stmts@.len(), base, outer, d, lim),
                self.has_null_check_if == (flag0 || count_nc(stmts@, stmts@.len()) > 0),
                count_nc(stmts@, stmts@.len()) <= 1,
                flag0 ==> count_nc(stmts@, stmts@.len()) == 0,
                d > 0 ==> count_nc(stmts@, stmts@.len()) == 0,
                forall|j: int| 0 <= j < stmts@.len() ==> Self::dispatch_shape(self.opts, d, #[trigger] stmts@[j]),
            decreases size - k,
        {
            proof {
                let cur = self.scope.frames();
                assert(cur.drop_last() =~= fs.drop_last());
                assert(self.scope.visible() == scope_at(stmts@, stmts@.len(), base, outer));
            }
            let ghost before = stmts@;
            let s = self.generate_stmt();
            stmts.push(s);
            proof {
                let n = before.len();
                lemma_stmts_push(before, s, n, base, outer, d, lim);
                lemma_locals_push(before, s, n);
                lemma_count_push(before, s, n);
                assert(stmts@[n as int] == s);
                lemma_locals_one(s);
                assert(locals(stmts@, n + 1) == locals(stmts@, n) + local_of(s));
                assert(base + locals(stmts@, n + 1) =~= base + locals(before, n) + locals(seq![s], 1));
                if is_null_check(s) {
                    assert(!stmt_ok(s, scope_at(before, n, base, outer), d, lim)) by {
                        if stmt_ok(s, scope_at(before, n, base, outer), d, lim) {
                            lemma_stmt_ok_not_null_check(s, scope_at(before, n, base, outer), d, lim);
                        }
                    }
                }
            }
            k += 1;
        }
        stmts
    }

    /// One statement: an `if` with probability `branch_rate` below the depth
    /// limit (at the top level, the null check with probability 0.3 while
    /// there is none), else a declaration with probability
    /// `declare_to_assign`, else an assignment.
    pub fn generate_stmt(&mut self) -> (r: Stmt)
        requires
            old(self).ready(),
            old(self).depth_spec() <= old(self).opts.max_depth + 1,
        ensures
            final(self).after(old(self), seq![r]),
            stmt_allowed(r, old(self).scope.visible(), old(self).depth_spec(), old(self).opts.limits()),
            final(self).has_null_check_if == (old(self).has_null_check_if || is_null_check(r)),
            is_null_check(r) ==> !old(self).has_null_check_if && old(self).depth_spec() == 0,
            Self::dispatch_shape(old(self).opts, old(self).depth_spec(), r),
        decreases old(self).room(), 3nat,
    {
        let d = self.scope.depth();
        if d < self.opts.max_depth as usize && chance(&mut self.rng, self.opts.branch_rate) {
            if !self.has_null_check_if && d == 0 && chance(&mut self.rng, 300000) {
                self.generate_null_check_if()
            } else {
                let r = self.generate_if();
                proof { lemma_stmt_ok_not_null_check(r, old(self).scope.visible(), old(self).depth_spec(), old(self).opts.limits()); }
                r
            }
        } else if chance(&mut self.rng, self.opts.declare_to_assign) {
            let r = self.generate_decl();
            proof { lemma_stmt_ok_not_null_check(r, old(self).scope.visible(), old(self).depth_spec(), old(self).opts.limits()); }
            r
        } else {
            let r = self.generate_assign();
            proof { lemma_stmt_ok_not_null_check(r, old(self).scope.visible(), old(self).depth_spec(), old(self).opts.limits()); }
            r
        }
    }

    /// `return i;`
    fn generate_ret() -> (r: Stmt)
        ensures
            is_return_param(r),
    {
        Stmt::Return(ReturnStmt { expr: Expr::Pure(PureExpr::Ident(gen::create_var_use("i"))) })
    }

    /// Defines the six standard fields and the four callables of `I` and `J`
    /// in the bottom frame.
    fn seed_scope(&mut self)
        requires
            old(self).scope.wf(),
            old(self).scope.frames() == seq![Seq::<EntryModel>::empty()],
        ensures
            final(self).scope.wf(),
            final(self).scope.frames() == seq![seed_scope()],
            final(self).opts == old(self).opts,
            final(self).has_null_check_if == old(self).has_null_check_if,
    {
        proof { lemma_names_distinct(); }
        let ghost seeds = seed_scope();
        self.scope.define_field(gen::create_int(), gen::ident("fint"));
        assert(self.scope.frames() =~~= seq![seeds.take(1)]);
        self.scope.define_field(gen::create_bool(), gen::ident("fb"));
        assert(self.scope.frames() =~~= seq![seeds.take(2)]);
        self.scope.define_field(gen::create_fut(gen::create_int()), gen::ident("ff"));
        assert(self.scope.frames() =~~= seq![seeds.take(3)]);
        self.scope.define_field(gen::create_fut(gen::create_bool()), gen::ident("ffb"));
        assert(self.scope.frames() =~~= seq![seeds.take(4)]);
        self.scope.define_field(gen::create_i(), gen::ident("fi"));
        assert(self.scope.frames() =~~= seq![seeds.take(5)]);
        self.scope.define_field(gen::create_j(), gen::ident("fj"));
        assert(self.scope.frames() =~~= seq![seeds.take(6)]);
        let mut on_i: Vec<Type> = Vec::new();
        on_i.push(gen::create_i());
        let none: Vec<Type> = Vec::new();
        assert(keys_of(on_i@) =~= seq![i_key()]);
        assert(keys_of(none@) =~= Seq::<TyKey>::empty());
        self.scope.define_fn(gen::create_int(), gen::ident("n"), on_i, none);
        assert(self.scope.frames() =~~= seq![seeds.take(7)]);
        let mut on_i: Vec<Type> = Vec::new();
        on_i.push(gen::create_i());
        let none: Vec<Type> = Vec::new();
        assert(keys_of(on_i@) =~= seq![i_key()]);
        assert(keys_of(none@) =~= Seq::<TyKey>::empty());
        self.scope.define_fn(gen::create_bool(), gen::ident("b"), on_i, none);
        assert(self.scope.frames() =~~= seq![seeds.take(8)]);
        let mut on_j: Vec<Type> = Vec::new();
        on_j.push(gen::create_j());
        let mut m_args: Vec<Type> = Vec::new();
        m_args.push(gen::create_int());
        assert(keys_of(on_j@) =~= seq![j_key()]);
        assert(keys_of(m_args@) =~= seq![int_key()]);
        self.scope.define_fn(gen::create_unit(), gen::ident("m"), on_j, m_args);
        assert(self.scope.frames() =~~= seq![seeds.take(9)]);
        let mut on_j: Vec<Type> = Vec::new();
        on_j.push(gen::create_j());
        let mut get_args: Vec<Type> = Vec::new();
        get_args.push(gen::create_bool());
        get_args.push(gen::create_int());
        assert(keys_of(on_j@) =~= seq![j_key()]);
        assert(keys_of(get_args@) =~= seq![bool_key(), int_key()]);
        self.scope.define_fn(gen::create_i(), gen::ident("getI"), on_j, get_args);
        assert(self.scope.frames() =~~= seq![seeds.take(10)]);
        assert(seeds.take(10) =~= seeds);
    }

    /// A method body: the seeded root frame, `expInt(avg_meth_body_size)`
    /// statements, the null check if none came up, and `return i;`.
    pub fn generate_body(&mut self) -> (r: Block)
        requires
            old(self).scope.wf(),
            old(self).scope.frames() == seq![Seq::<EntryModel>::empty()],
            !old(self).has_null_check_if,
        ensures
            body_ok(r.stmts@, old(self).opts.limits()),
            final(self).scope.stack@.len() == 1,
            final(self).opts == old(self).opts,
            old(self).opts.avg_meth_body_size == 0 ==> r.stmts@.len() == 2 && is_null_check(r.stmts@[0]),
            old(self).opts.max_depth == 0 ==> is_null_check(r.stmts@[r.stmts@.len() - 2]) && forall|j: int|
                0 <= j < r.stmts@.len() - 2 ==> !(#[trigger] r.stmts@[j] is If),
            exists|n: nat| #[trigger] is_exp_outcome(old(self).opts.avg_meth_body_size, n) && {
                ||| r.stmts@.len() == n + 1 && count_nc(r.stmts@, n) == 1
                ||| r.stmts@.len() == n + 2 && count_nc(r.stmts@, n) == 0 && is_null_check(r.stmts@[n as int])
            },
            old(self).opts.branch_rate == 0 ==> is_null_check(r.stmts@[r.stmts@.len() - 2]) && forall|j: int|
                0 <= j < r.stmts@.len() - 2 ==> !(#[trigger] r.stmts@[j] is If),
            old(self).opts.branch_rate >= PPM && old(self).opts.max_depth > 0 ==> forall|j: int|
                0 <= j < r.stmts@.len() - 1 ==> #[trigger] r.stmts@[j] is If,
            old(self).opts.avg_block_size == 0 ==> forall|j: int|
                0 <= j < r.stmts@.len() ==> empty_branches(#[trigger] r.stmts@[j]),
    {
        let ghost lim = self.opts.limits();
        let size = exp_rand_int(&mut self.rng, self.opts.avg_meth_body_size);
        self.seed_scope();
        proof {
            lemma_seed_ready();
            assert(seq![seed_scope()].drop_last() =~= Seq::<Seq<EntryModel>>::empty());
            assert(flat(Seq::<Seq<EntryModel>>::empty()) == Seq::<EntryModel>::empty());
            assert(self.scope.visible() =~= seed_scope());
        }
        let mut stmts = self.fill(size);
        let ghost filled = stmts@;
        let ghost n = filled.len();
        proof {
            assert(self.scope.frames().drop_last() =~= Seq::<Seq<EntryModel>>::empty());
            assert(self.scope.visible() =~= scope_at(filled, n, seed_scope(), seq![]));
        }
        let appended = !self.has_null_check_if;
        if appended {
            let nc = self.generate_null_check_if();
            stmts.push(nc);
            proof {
                lemma_stmts_push(filled, nc, n, seed_scope(), seq![], 0, lim);
                lemma_count_push(filled, nc, n);
                lemma_locals_push(filled, nc, n);
                assert(stmts@[n as int] == nc);
            }
        }
        let ghost before_ret = stmts@;
        let ret = Self::generate_ret();
        stmts.push(ret);
        proof {
            let m = before_ret.len();
            lemma_stmts_push(before_ret, ret, m, seed_scope(), seq![], 0, lim);
            lemma_count_push(before_ret, ret, m);
            if appended {
                lemma_stmts_push(before_ret, ret, n, seed_scope(), seq![], 0, lim);
                lemma_count_push(before_ret, ret, n);
                lemma_locals_push(before_ret, ret, n);
                assert(stmts@[n as int] == before_ret[n as int]);
                assert(count_nc(stmts@, n + 1) == count_nc(stmts@, n) + 1);
            }
            assert forall|j: int| 0 <= j < n implies #[trigger] stmts@[j] == filled[j] by {}
            if !appended {
                assert(count_nc(stmts@, n) == count_nc(filled, n));
            }
            assert(is_exp_outcome(old(self).opts.avg_meth_body_size, n));
            if old(self).opts.branch_rate == 0 {
                lemma_count_no_if(filled, n);
                assert forall|j: int| 0 <= j < stmts@.len() - 2 implies !(#[trigger] stmts@[j] is If) by {
                    assert(stmts@[j] == filled[j]);
                }
            }
            if lim.max_depth == 0 {
                lemma_no_if_at_zero(filled, n, seed_scope(), seq![], lim);
                assert forall|j: int| 0 <= j < stmts@.len() - 2 implies !(#[trigger] stmts@[j] is If) by {
                    assert(stmts@[j] == filled[j]);
                }
            }
        }
        Block { stmts }
    }
}

} // verus!

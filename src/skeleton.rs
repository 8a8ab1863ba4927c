//! The module around the generated classes: the `Spec` datatype under
//! Crowbar, the interfaces `I` and `J`, the classes `D` and `E`, and the
//! random classes `Generated_k`.
use vstd::prelude::*;
use crate::ast::{
    Annotations, Block, ClassDecl, DataTypeDecl, Expr, EffExpr, FieldDecl, InterfaceDecl,
    MethodDecl, MethodSig, Module, ModuleItem, Param, PureExpr, Stmt, Type,
};
use crate::chance::{draw_seed, seeded};
use crate::gen;
use crate::generator::{Options, RandGenerator, Target};
use crate::text::{digits, numbered};
use crate::typing::body_ok;

verus! {

/// How many items stand before the random classes.
pub open spec fn preamble_len(target: Target) -> nat {
    if target == Target::Crowbar { 5 } else { 4 }
}

/// A type without arguments named `name`.
pub open spec fn simple_ty_is(t: Type, name: &str) -> bool {
    t.ident.str@ == name@ && t.args@.len() == 0
}

/// `Fut<name>`
pub open spec fn fut_ty_is(t: Type, name: &str) -> bool {
    t.ident.str@ == "Fut"@ && t.args@.len() == 1 && simple_ty_is(t.args@[0], name)
}

/// `ty name`, without annotations.
pub open spec fn plain_param(p: Param, ty: &str, name: &str) -> bool {
    simple_ty_is(p.ty, ty) && p.ident.str@ == name@ && p.annotations.0@.len() == 0
}

/// `ret name(..)`, with its annotations and parameters left to the caller.
pub open spec fn sig_head(m: MethodSig, ret: &str, name: &str) -> bool {
    simple_ty_is(m.ret, ret) && m.ident.str@ == name@
}

/// `{ return lit; }`
pub open spec fn returns_lit(b: Block, lit: &str) -> bool {
    &&& b.stmts@.len() == 1
    &&& b.stmts@[0] matches Stmt::Return(r)
    &&& r.expr matches Expr::Pure(PureExpr::Literal(l))
    &&& l.s@ == lit@
}

/// The annotations that say a method returns no null under `target`.
pub open spec fn non_null_ret_annos(a: Annotations, target: Target) -> bool {
    &&& target == Target::Crowbar ==> a.0@.len() == 1 && gen::is_spec_anno(a.0@[0], "Ensures", "result")
    &&& target == Target::NullableExtension ==> a.0@.len() == 1 && gen::is_flag_anno(a.0@[0], "NonNull")
    &&& target == Target::Location ==> a.0@.len() == 0
}

/// A class with no annotations, parameters, init block or recover branches.
pub open spec fn bare_class(c: ClassDecl, name: &str) -> bool {
    &&& c.ident.str@ == name@
    &&& c.annotations.0@.len() == 0
    &&& c.params@.len() == 0
    &&& c.init is None
    &&& c.recover@.len() == 0
}

/// `interface I { Int n(); Bool b(); }`
pub open spec fn interface_i_ok(r: InterfaceDecl) -> bool {
    &&& r.ident.str@ == "I"@
    &&& r.extends@.len() == 0
    &&& r.sigs@.len() == 2
    &&& sig_head(r.sigs@[0], "Int", "n") && r.sigs@[0].params@.len() == 0 && r.sigs@[0].annotations.0@.len() == 0
    &&& sig_head(r.sigs@[1], "Bool", "b") && r.sigs@[1].params@.len() == 0 && r.sigs@[1].annotations.0@.len() == 0
}

/// `interface J { Unit m(Int v); [..] I getI(Bool flag, Int c); }`
pub open spec fn interface_j_ok(r: InterfaceDecl, target: Target) -> bool {
    &&& r.ident.str@ == "J"@
    &&& r.extends@.len() == 0
    &&& r.sigs@.len() == 2
    &&& sig_head(r.sigs@[0], "Unit", "m") && r.sigs@[0].annotations.0@.len() == 0
    &&& r.sigs@[0].params@.len() == 1 && plain_param(r.sigs@[0].params@[0], "Int", "v")
    &&& sig_head(r.sigs@[1], "I", "getI") && non_null_ret_annos(r.sigs@[1].annotations, target)
    &&& r.sigs@[1].params@.len() == 2 && plain_param(r.sigs@[1].params@[0], "Bool", "flag")
    &&& plain_param(r.sigs@[1].params@[1], "Int", "c")
}

/// `class D implements I { Int n() { return 0; } Bool b() { return False; } }`
pub open spec fn class_d_ok(r: ClassDecl) -> bool {
    &&& bare_class(r, "D")
    &&& r.implements@.len() == 1 && r.implements@[0].str@ == "I"@
    &&& r.fields@.len() == 0
    &&& r.methods@.len() == 2
    &&& sig_head(r.methods@[0].sig, "Int", "n") && r.methods@[0].sig.params@.len() == 0
    &&& r.methods@[0].sig.annotations.0@.len() == 0 && returns_lit(r.methods@[0].body, "0")
    &&& sig_head(r.methods@[1].sig, "Bool", "b") && r.methods@[1].sig.params@.len() == 0
    &&& r.methods@[1].sig.annotations.0@.len() == 0 && returns_lit(r.methods@[1].body, "False")
}

/// `I res = new D(); return res;`
pub open spec fn new_d_via_res(b: Block) -> bool {
    &&& b.stmts@.len() == 2
    &&& b.stmts@[0] matches Stmt::VarDecl(d)
    &&& d.annotations.0@.len() == 0 && simple_ty_is(d.ty, "I") && d.ident.str@ == "res"@
    &&& d.init matches Some(Expr::Eff(EffExpr::New(n)))
    &&& !n.local && n.ty.str@ == "D"@ && n.args@.len() == 0
    &&& b.stmts@[1] matches Stmt::Return(ret)
    &&& ret.expr matches Expr::Pure(PureExpr::Ident(x))
    &&& x.ident.str@ == "res"@
}

/// `class E implements J { Unit m(Int v) { } [..] I getI(Bool flag, Int c) { I res = new D(); return res; } }`
pub open spec fn class_e_ok(r: ClassDecl, target: Target) -> bool {
    &&& bare_class(r, "E")
    &&& r.implements@.len() == 1 && r.implements@[0].str@ == "J"@
    &&& r.fields@.len() == 0
    &&& r.methods@.len() == 2
    &&& sig_head(r.methods@[0].sig, "Unit", "m") && r.methods@[0].sig.annotations.0@.len() == 0
    &&& r.methods@[0].sig.params@.len() == 1 && plain_param(r.methods@[0].sig.params@[0], "Int", "v")
    &&& r.methods@[0].body.stmts@.len() == 0
    &&& sig_head(r.methods@[1].sig, "I", "getI")
    &&& r.methods@[1].sig.params@.len() == 2 && plain_param(r.methods@[1].sig.params@[0], "Bool", "flag")
    &&& plain_param(r.methods@[1].sig.params@[1], "Int", "c")
    &&& r.methods@[1].sig.annotations.0@.len() == if target == Target::NullableExtension { 1nat } else { 0nat }
    &&& target == Target::NullableExtension ==> gen::is_flag_anno(r.methods@[1].sig.annotations.0@[0], "NonNull")
    &&& new_d_via_res(r.methods@[1].body)
}

/// `ty name;` without annotations or initialiser.
pub open spec fn field_bare(f: FieldDecl, name: &str) -> bool {
    f.ident.str@ == name@ && f.annotations.0@.len() == 0 && f.init is None
}

/// `ty name = lit;` without annotations.
pub open spec fn field_lit(f: FieldDecl, name: &str, lit: &str) -> bool {
    &&& f.ident.str@ == name@ && f.annotations.0@.len() == 0
    &&& f.init matches Some(PureExpr::Literal(l)) && l.s@ == lit@
}

/// `ty name = null;` without annotations.
pub open spec fn field_null(f: FieldDecl, name: &str) -> bool {
    f.ident.str@ == name@ && f.annotations.0@.len() == 0 && (f.init matches Some(e) && e is Null)
}

/// `[..] I gen([..] I i) { body }` with a generated body.
pub open spec fn gen_method_ok(r: MethodDecl, opts: Options) -> bool {
    &&& sig_head(r.sig, "I", "gen")
    &&& r.sig.params@.len() == 1
    &&& r.sig.params@[0].ident.str@ == "i"@ && simple_ty_is(r.sig.params@[0].ty, "I")
    &&& non_null_ret_annos(r.sig.annotations, opts.target)
    &&& opts.target == Target::Crowbar ==> r.sig.params@[0].annotations.0@.len() == 1
        && gen::is_spec_anno(r.sig.params@[0].annotations.0@[0], "Requires", "i")
    &&& opts.target == Target::NullableExtension ==> r.sig.params@[0].annotations.0@.len() == 1
        && gen::is_flag_anno(r.sig.params@[0].annotations.0@[0], "Nullable")
    &&& opts.target == Target::Location ==> r.sig.params@[0].annotations.0@.len() == 0
    &&& body_ok(r.body.stmts@, opts.limits())
}

/// A random class named `name`: the six standard fields and `gen`.
pub open spec fn generated_class_ok(r: ClassDecl, name: Seq<char>, opts: Options) -> bool {
    &&& r.ident.str@ == name
    &&& r.annotations.0@.len() == 0 && r.params@.len() == 0 && r.init is None && r.recover@.len() == 0
    &&& r.implements@.len() == 0
    &&& r.fields@.len() == 6
    &&& simple_ty_is(r.fields@[0].ty, "Int") && field_lit(r.fields@[0], "fint", "0")
    &&& simple_ty_is(r.fields@[1].ty, "Bool") && field_lit(r.fields@[1], "fb", "True")
    &&& fut_ty_is(r.fields@[2].ty, "Int") && field_bare(r.fields@[2], "ff")
    &&& fut_ty_is(r.fields@[3].ty, "Bool") && field_bare(r.fields@[3], "ffb")
    &&& simple_ty_is(r.fields@[4].ty, "I") && field_null(r.fields@[4], "fi")
    &&& simple_ty_is(r.fields@[5].ty, "J") && field_null(r.fields@[5], "fj")
    &&& r.methods@.len() == 1
    &&& gen_method_ok(r.methods@[0], opts)
}

/// `data Spec = ObjInv(Bool) | Ensures(Bool) | Requires(Bool) | WhileInv(Bool);`
pub open spec fn spec_datatype_ok(r: DataTypeDecl) -> bool {
    &&& r.ident.str@ == "Spec"@
    &&& r.params@.len() == 0
    &&& r.constr@.len() == 4
    &&& r.constr@[0].ident.str@ == "ObjInv"@
    &&& r.constr@[1].ident.str@ == "Ensures"@
    &&& r.constr@[2].ident.str@ == "Requires"@
    &&& r.constr@[3].ident.str@ == "WhileInv"@
    &&& forall|k: int| 0 <= k < 4 ==> (#[trigger] r.constr@[k]).params@.len() == 1
        && simple_ty_is(r.constr@[k].params@[0].ty, "Bool") && r.constr@[k].params@[0].ident is None
}

/// `I`: `Int n()` and `Bool b()`.
pub fn interface_i() -> (r: InterfaceDecl)
    ensures
        interface_i_ok(r),
{
    gen::start_interface_decl("I")
        .with_sig(gen::start_method_sig("n").with_ret(gen::create_int()).complete())
        .with_sig(gen::start_method_sig("b").with_ret(gen::create_bool()).complete())
        .complete()
}

/// `J`: `Unit m(Int v)` and `I getI(Bool flag, Int c)`, the latter
/// annotated as returning no null where the target has such annotations.
pub fn interface_j(target: Target) -> (r: InterfaceDecl)
    ensures
        interface_j_ok(r, target),
{
    let m = gen::start_method_sig("m")
        .with_ret(gen::create_unit())
        .with_param(gen::create_param(gen::create_int(), "v", gen::empty_annos()))
        .complete();
    let mut get_i = gen::start_method_sig("getI");
    match gen::create_non_null_ret_anno(target) {
        Some(a) => get_i.add_annotation(a),
        None => {},
    }
    let get_i = get_i
        .with_ret(gen::create_i())
        .with_param(gen::create_param(gen::create_bool(), "flag", gen::empty_annos()))
        .with_param(gen::create_param(gen::create_int(), "c", gen::empty_annos()))
        .complete();
    gen::start_interface_decl("J").with_sig(m).with_sig(get_i).complete()
}

/// `class D implements I` with `n` returning `0` and `b` returning `False`.
pub fn class_d() -> (r: ClassDecl)
    ensures
        class_d_ok(r),
{
    let ret_zero = Stmt::Return(gen::create_ret_stmt(Expr::Pure(PureExpr::Literal(gen::create_lit("0")))));
    let ret_false = Stmt::Return(gen::create_ret_stmt(Expr::Pure(PureExpr::Literal(gen::create_lit("False")))));
    gen::start_class_decl("D")
        .with_implements("I")
        .with_method(gen::create_method_decl(
            gen::start_method_sig("n").with_ret(gen::create_int()).complete(),
            gen::start_block().with_stmt(ret_zero).complete(),
        ))
        .with_method(gen::create_method_decl(
            gen::start_method_sig("b").with_ret(gen::create_bool()).complete(),
            gen::start_block().with_stmt(ret_false).complete(),
        ))
        .complete()
}

/// `class E implements J` with an empty `m` and a `getI` that returns a new
/// `D` through the local `res`.
pub fn class_e(target: Target) -> (r: ClassDecl)
    ensures
        class_e_ok(r, target),
{
    let mut get_i_sig = gen::start_method_sig("getI")
        .with_ret(gen::create_i())
        .with_param(gen::create_param(gen::create_bool(), "flag", gen::empty_annos()))
        .with_param(gen::create_param(gen::create_int(), "c", gen::empty_annos()));
    if target == Target::NullableExtension {
        get_i_sig.add_annotation(gen::create_nullable_non_null());
    }
    let new_d = Expr::Eff(EffExpr::New(gen::start_new_expr(false, "D").complete()));
    let decl = Stmt::VarDecl(gen::create_var_decl_init(gen::create_i(), "res", new_d, gen::empty_annos()));
    let ret = Stmt::Return(gen::create_ret_stmt(Expr::Pure(PureExpr::Ident(gen::create_var_use("res")))));
    gen::start_class_decl("E")
        .with_implements("J")
        .with_method(gen::create_method_decl(
            gen::start_method_sig("m")
                .with_ret(gen::create_unit())
                .with_param(gen::create_param(gen::create_int(), "v", gen::empty_annos()))
                .complete(),
            gen::start_block().complete(),
        ))
        .with_method(gen::create_method_decl(
            get_i_sig.complete(),
            gen::start_block().with_stmt(decl).with_stmt(ret).complete(),
        ))
        .complete()
}

/// `I gen(I i)` with a generated body; the return type and the parameter
/// carry the target's non-null and nullable annotations.
pub fn create_rand_method(opts: Options, seed: u64) -> (r: MethodDecl)
    ensures
        gen_method_ok(r, opts),
{
    let mut sig = gen::start_method_sig("gen").with_ret(gen::create_i());
    match gen::create_non_null_ret_anno(opts.target) {
        Some(a) => sig.add_annotation(a),
        None => {},
    }
    let mut annos = gen::empty_annos();
    match opts.target {
        Target::Crowbar => annos.push(gen::create_crowbar_non_null_param("i")),
        Target::NullableExtension => annos.push(gen::create_nullable_nullable()),
        Target::Location => {},
    }
    sig.add_param(gen::create_param(gen::create_i(), "i", annos));
    let mut g = RandGenerator::new(opts, seed);
    let body = g.generate_body();
    gen::create_method_decl(sig.complete(), body)
}

/// A random class: the six standard fields and the method `gen`.
pub fn class_generated(name: &str, opts: Options, seed: u64) -> (r: ClassDecl)
    ensures
        generated_class_ok(r, name@, opts),
{
    gen::start_class_decl(name)
        .with_field(gen::create_field_init(gen::create_int(), "fint", PureExpr::Literal(gen::create_lit("0")), gen::empty_annos()))
        .with_field(gen::create_field_init(gen::create_bool(), "fb", PureExpr::Literal(gen::create_lit("True")), gen::empty_annos()))
        .with_field(gen::create_field(gen::create_fut(gen::create_int()), "ff", gen::empty_annos()))
        .with_field(gen::create_field(gen::create_fut(gen::create_bool()), "ffb", gen::empty_annos()))
        .with_field(gen::create_field_init(gen::create_i(), "fi", gen::create_null(), gen::empty_annos()))
        .with_field(gen::create_field_init(gen::create_j(), "fj", gen::create_null(), gen::empty_annos()))
        .with_method(create_rand_method(opts, seed))
        .complete()
}

/// `data Spec = ObjInv(Bool) | Ensures(Bool) | Requires(Bool) | WhileInv(Bool);`
pub fn spec_datatype() -> (r: crate::ast::DataTypeDecl)
    ensures
        spec_datatype_ok(r),
{
    gen::start_data_type("Spec")
        .with_const(gen::start_data_constr("ObjInv").with_param(gen::create_data_constr_param(gen::create_bool())).complete())
        .with_const(gen::start_data_constr("Ensures").with_param(gen::create_data_constr_param(gen::create_bool())).complete())
        .with_const(gen::start_data_constr("Requires").with_param(gen::create_data_constr_param(gen::create_bool())).complete())
        .with_const(gen::start_data_constr("WhileInv").with_param(gen::create_data_constr_param(gen::create_bool())).complete())
        .complete()
}

/// The module that `gen_mock_module` builds: the preamble for the target,
/// then the random classes in order.
pub open spec fn mock_module_ok(r: Module, opts: Options) -> bool {
    &&& r.name.str@ == "MockABS"@
    &&& r.children@.len() == preamble_len(opts.target) + opts.num_rand_classes
    &&& opts.target == Target::Crowbar ==> (r.children@[0] matches ModuleItem::DataTypeDecl(d) && spec_datatype_ok(d))
    &&& r.children@[preamble_len(opts.target) - 4] matches ModuleItem::InterfaceDecl(i) && interface_i_ok(i)
    &&& r.children@[preamble_len(opts.target) - 3] matches ModuleItem::InterfaceDecl(j) && interface_j_ok(j, opts.target)
    &&& r.children@[preamble_len(opts.target) - 2] matches ModuleItem::ClassDecl(d) && class_d_ok(d)
    &&& r.children@[preamble_len(opts.target) - 1] matches ModuleItem::ClassDecl(e) && class_e_ok(e, opts.target)
    &&& forall|k: int|
            0 <= k < opts.num_rand_classes ==> {
                &&& #[trigger] r.children@[preamble_len(opts.target) + k] matches ModuleItem::ClassDecl(c)
                &&& generated_class_ok(c, "Generated_"@ + digits(k as nat), opts)
            }
}

/// The module `MockABS`: the preamble, then `num_rand_classes` random
/// classes `Generated_0`, `Generated_1`, ..., each from a seed drawn from
/// `seed`.
pub fn gen_mock_module(opts: Options, seed: u64) -> (r: Module)
    ensures
        mock_module_ok(r, opts),
{
    let mut builder = gen::start_module("MockABS");
    if opts.target == Target::Crowbar {
        builder.add_child(ModuleItem::DataTypeDecl(spec_datatype()));
    }
    builder.add_child(ModuleItem::InterfaceDecl(interface_i()));
    builder.add_child(ModuleItem::InterfaceDecl(interface_j(opts.target)));
    builder.add_child(ModuleItem::ClassDecl(class_d()));
    builder.add_child(ModuleItem::ClassDecl(class_e(opts.target)));
    let ghost p = preamble_len(opts.target);
    let mut rng = seeded(seed);
    let mut k: u32 = 0;
    while k < opts.num_rand_classes
        invariant
            k <= opts.num_rand_classes,
            builder.name.str@ == "MockABS"@,
            builder.children@.len() == p + k,
            p == preamble_len(opts.target),
            opts.target == Target::Crowbar ==> (builder.children@[0] matches ModuleItem::DataTypeDecl(d) && spec_datatype_ok(d)),
            builder.children@[p - 4] matches ModuleItem::InterfaceDecl(i) && interface_i_ok(i),
            builder.children@[p - 3] matches ModuleItem::InterfaceDecl(j) && interface_j_ok(j, opts.target),
            builder.children@[p - 2] matches ModuleItem::ClassDecl(d) && class_d_ok(d),
            builder.children@[p - 1] matches ModuleItem::ClassDecl(e) && class_e_ok(e, opts.target),
            forall|j: int|
                0 <= j < k ==> {
                    &&& #[trigger] builder.children@[p + j] matches ModuleItem::ClassDecl(c)
                    &&& generated_class_ok(c, "Generated_"@ + digits(j as nat), opts)
                },
        decreases opts.num_rand_classes - k,
    {
        let name = numbered("Generated_", k);
        let class_seed = draw_seed(&mut rng);
        let c = class_generated(name.as_str(), opts, class_seed);
        builder.add_child(ModuleItem::ClassDecl(c));
        k += 1;
    }
    builder.complete()
}

} // verus!

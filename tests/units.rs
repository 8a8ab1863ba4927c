use abs_rand_module::ast::{
    BinaryExpr, BinaryOp, Block, Expr, IdentExpr, IfStmt, PureExpr, Stmt, Type, UnaryExpr, UnaryOp,
};
use abs_rand_module::chance::{chance, choose_index, decay_per_step, exp_rand_int, EXP_CAP, PPM, SCALE};
use rand::rngs::StdRng;
use rand::SeedableRng;

fn seeded(seed: u64) -> StdRng {
    StdRng::seed_from_u64(seed)
}
use abs_rand_module::fmt::ABSFormatter;
use abs_rand_module::gen;
use abs_rand_module::generator::{ty_is_obj, Options, Target};
use abs_rand_module::scope::{generate_name, Scope};
use abs_rand_module::text::{letter, numbered, push_letters, small_int_text};
use abs_rand_module::skeleton::{class_d, class_e, interface_j, spec_datatype};
use abs_rand_module::typing::EntryKind;

#[test]
fn chance_edges() {
    let mut rng = seeded(1);
    for _ in 0..200 {
        assert!(!chance(&mut rng, 0));
        assert!(chance(&mut rng, PPM));
    }
    let hits = (0..2000).filter(|_| chance(&mut rng, 500000)).count();
    assert!(hits > 800 && hits < 1200);
}

#[test]
fn choose_index_stays_below_len() {
    let mut rng = seeded(2);
    let mut seen = [false; 5];
    for _ in 0..500 {
        let k = choose_index(&mut rng, 5);
        assert!(k < 5);
        seen[k] = true;
    }
    assert!(seen.iter().all(|b| *b));
}

#[test]
fn exp_rand_int_zero_mean_and_range() {
    let mut rng = seeded(3);
    assert_eq!(exp_rand_int(&mut rng, 0), 0);
    let mut total: u64 = 0;
    for _ in 0..4000 {
        let k = exp_rand_int(&mut rng, 10);
        assert!(k >= 1 && k <= EXP_CAP);
        total += k;
    }
    let mean = total as f64 / 4000.0;
    assert!(mean > 9.0 && mean < 12.0, "mean {}", mean);
}

#[test]
fn decay_matches_exponential() {
    let q = decay_per_step(1) as f64 / SCALE as f64;
    assert!((q - (-1.0f64).exp()).abs() < 1e-6);
    let q = decay_per_step(10) as f64 / SCALE as f64;
    assert!((q - (-0.1f64).exp()).abs() < 1e-6);
}

#[test]
fn small_int_text_values() {
    assert_eq!(small_int_text(0), "0");
    assert_eq!(small_int_text(7), "7");
    assert_eq!(small_int_text(-7), "-7");
    assert_eq!(small_int_text(42), "42");
    assert_eq!(small_int_text(-500), "-500");
    assert_eq!(small_int_text(499), "499");
}

#[test]
fn numbered_names() {
    assert_eq!(numbered("Generated_", 0), "Generated_0");
    assert_eq!(numbered("Generated_", 12), "Generated_12");
    assert_eq!(numbered("x", 4294967295), "x4294967295");
}

#[test]
fn literals_by_type() {
    let mut rng = seeded(4);
    for _ in 0..300 {
        let l = gen::create_int().get_lit(&mut rng).unwrap();
        let n: i32 = l.s.parse().unwrap();
        assert!((-500..500).contains(&n));
        let b = gen::create_bool().get_lit(&mut rng).unwrap();
        assert!(b.s == "True" || b.s == "False");
    }
    assert!(gen::create_i().get_lit(&mut rng).is_none());
    assert!(gen::create_fut(gen::create_int()).get_lit(&mut rng).is_none());
}

#[test]
fn type_predicates() {
    assert!(gen::create_int().is_int() && gen::create_int().has_lit());
    assert!(gen::create_bool().is_bool() && gen::create_bool().has_lit());
    assert!(gen::create_unit().is_unit() && !gen::create_unit().has_lit());
    let f = gen::create_fut(gen::create_int());
    assert!(f.is_fut() && !f.has_lit());
    assert!(ty_is_obj(&gen::create_i()) && ty_is_obj(&gen::create_j()));
    assert!(!ty_is_obj(&gen::create_int()));
}

#[test]
fn scope_queries() {
    let mut s = Scope::new();
    assert_eq!(s.depth(), 0);
    s.define_field(gen::create_int(), gen::ident("fint"));
    s.define_field(gen::create_fut(gen::create_int()), gen::ident("ff"));
    let mut on_i: Vec<Type> = Vec::new();
    on_i.push(gen::create_i());
    s.define_fn(gen::create_int(), gen::ident("n"), on_i, Vec::new());
    s.open();
    assert_eq!(s.depth(), 1);
    s.define_var(gen::create_int(), gen::ident("abcdef"));
    let all = s.iter();
    assert_eq!(all.len(), 4);
    assert_eq!(all[0].ident.str, "abcdef");
    assert_eq!(all[1].ident.str, "fint");
    assert_eq!(s.of_type(&gen::create_int()).len(), 2);
    assert!(s.has_of_type(&gen::create_fut(gen::create_int())));
    assert!(!s.has_of_type(&gen::create_fut(gen::create_bool())));
    assert!(!s.has_of_type(&gen::create_bool()));
    let fs = s.fn_of_type(&gen::create_int());
    assert_eq!(fs.len(), 1);
    assert_eq!(fs[0].kind, EntryKind::Fn);
    assert_eq!(s.functions().len(), 1);
    let mut rng = seeded(5);
    let e = s.get_assignable_ident(&mut rng);
    assert!(e.kind != EntryKind::Fn);
    assert_eq!(s.get_fut(&mut rng).unwrap().ident.str, "ff");
    assert_eq!(s.get_fn(&mut rng).unwrap().ident.str, "n");
    assert!(s.has_name(&"fint".to_string()));
    let fresh = s.free_var_ident(&mut rng).unwrap();
    assert_eq!(fresh.str.chars().count(), 6);
    assert!(!s.has_name(&fresh.str));
    s.close();
    assert_eq!(s.depth(), 0);
    assert_eq!(s.iter().len(), 3);
}

#[test]
fn names_are_six_letters() {
    let mut rng = seeded(6);
    for _ in 0..100 {
        let n = generate_name(&mut rng);
        assert_eq!(n.chars().count(), 6);
        assert!(n.chars().all(|c| c.is_ascii_alphabetic()));
        assert!(n.chars().next().unwrap().is_ascii_lowercase());
    }
}

#[test]
fn printer_types_and_expressions() {
    assert_eq!(gen::create_fut(gen::create_int()).to_text(), "Fut<Int>");
    let sum = PureExpr::Operator(abs_rand_module::ast::OperatorExpr::Binary(BinaryExpr {
        op: BinaryOp::Plus,
        left: Box::new(PureExpr::Literal(gen::create_lit("1"))),
        right: Box::new(PureExpr::Ident(gen::create_var_use("x"))),
    }));
    assert_eq!(sum.to_text(), "1 + x");
    let not = PureExpr::Operator(abs_rand_module::ast::OperatorExpr::Unary(UnaryExpr {
        op: UnaryOp::Not,
        expr: Box::new(PureExpr::Ident(IdentExpr { ident: gen::ident("fb") })),
    }));
    assert_eq!(not.to_text(), "! fb");
    assert_eq!(PureExpr::DataConstr(gen::create_data_constr("NonNull")).to_text(), "NonNull");
    let args = vec![PureExpr::Null, PureExpr::This];
    assert_eq!(PureExpr::DataConstr(gen::create_data_constr_args("Pair", args)).to_text(), "Pair(null, this)");
}

#[test]
fn printer_statements() {
    let empty = Block { stmts: Vec::new() };
    assert_eq!(empty.to_text(), "{\n\t\n}");
    let assign = Stmt::Assign(gen::create_assign("x", Expr::Pure(PureExpr::Literal(gen::create_lit("3")))));
    assert_eq!(assign.to_text(), "x = 3;");
    let iff = Stmt::If(IfStmt {
        condition: PureExpr::Literal(gen::create_lit("True")),
        then_branch: Box::new(Stmt::Block(Block { stmts: vec![assign] })),
        else_branch: Some(Box::new(Stmt::Block(Block { stmts: Vec::new() }))),
    });
    assert_eq!(iff.to_text(), "if (True) {\n\tx = 3;\n} else {\n\t\n}");
    let decl = Stmt::VarDecl(gen::create_var_decl_init(
        gen::create_i(),
        "res",
        Expr::Eff(abs_rand_module::ast::EffExpr::New(gen::start_new_expr(false, "D").complete())),
        gen::empty_annos(),
    ));
    assert_eq!(decl.to_text(), "I res = new D();");
}

#[test]
fn formatter_lines_and_indent() {
    let mut f = ABSFormatter::new();
    f.add("a");
    f.add_indent();
    f.new_line();
    f.add("b");
    f.sub_indent();
    f.new_line();
    f.add("c");
    assert_eq!(f.indent_str(), "");
    assert_eq!(f.abs_code(), "a\n\tb\nc");
}

#[test]
fn annotations_print() {
    let mut f = ABSFormatter::new();
    abs_rand_module::fmt::write_anno(&gen::create_crowbar_non_null_param("i"), &mut f);
    assert_eq!(f.abs_code(), "[Spec: Requires(i != null)]");
    let mut f = ABSFormatter::new();
    abs_rand_module::fmt::write_anno(&gen::create_nullable_nullable(), &mut f);
    assert_eq!(f.abs_code(), "[Nullable]");
    assert!(gen::create_non_null_ret_anno(Target::Location).is_none());
}

#[test]
fn default_options() {
    let o = Options::default();
    assert_eq!(o.num_rand_classes, 100);
    assert_eq!(o.max_depth, 3);
    assert_eq!(o.branch_rate, 200000);
    assert_eq!(o.avg_meth_body_size, 10);
    assert_eq!(o.avg_block_size, 4);
    assert_eq!(o.target, Target::NullableExtension);
}

#[test]
fn golden_seeded_module() {
    let mut o = Options::default();
    o.num_rand_classes = 1;
    o.avg_meth_body_size = 3;
    o.avg_block_size = 1;
    o.max_depth = 2;
    let text = abs_rand_module::skeleton::gen_mock_module(o, 2024).to_text();
    assert_eq!(
        text,
        "module MockABS;\n\ninterface I {\n\tInt n();\n\tBool b();\n}\n\ninterface J {\n\tUnit m(Int v);\n\t[NonNull] I getI(Bool flag, Int c);\n}\n\nclass D implements I {\n\tInt n() {\n\t\treturn 0;\n\t}\n\t\n\tBool b() {\n\t\treturn False;\n\t}\n}\n\nclass E implements J {\n\tUnit m(Int v) {\n\t\t\n\t}\n\t\n\t[NonNull] I getI(Bool flag, Int c) {\n\t\tI res = new D();\n\t\treturn res;\n\t}\n}\n\nclass Generated_0 {\n\tInt fint = 0;\n\tBool fb = True;\n\tFut<Int> ff;\n\tFut<Bool> ffb;\n\tI fi = null;\n\tJ fj = null;\n\t[NonNull] I gen([Nullable] I i) {\n\t\tfb = True;\n\t\tffb = fi!b();\n\t\tfj = new E();\n\t\tfb = fb;\n\t\tif (i == null) {\n\t\t\tfj = new E();\n\t\t\ti = new D();\n\t\t} else {\n\t\t\tif (fb == ! fb) {\n\t\t\t\tfj = fj;\n\t\t\t} else {\n\t\t\t\tfb = False == ! False == ! fb;\n\t\t\t}\n\t\t}\n\t\treturn i;\n\t}\n}\n\n"
    );
}

#[test]
fn letter_encoding() {
    assert_eq!(letter(0), 'a');
    assert_eq!(letter(25), 'z');
    let mut s = String::new();
    push_letters(&mut s, 0, 6);
    assert_eq!(s, "aaaaaa");
    let mut s = String::new();
    push_letters(&mut s, 27, 6);
    assert_eq!(s, "aaaabb");
}

#[test]
fn scope_queries_keep_order() {
    let mut s = Scope::new();
    s.define_field(gen::create_int(), gen::ident("first"));
    s.define_field(gen::create_bool(), gen::ident("flag"));
    s.define_field(gen::create_int(), gen::ident("second"));
    let mut rng = seeded(8);
    assert!(s.get_fut(&mut rng).is_none());
    assert!(s.get_fn(&mut rng).is_none());
    s.open();
    s.define_var(gen::create_int(), gen::ident("inner"));
    let names: Vec<String> = s.of_type(&gen::create_int()).iter().map(|e| e.ident.str.clone()).collect();
    assert_eq!(names, vec!["inner", "first", "second"]);
    assert!(s.fn_of_type(&gen::create_int()).is_empty());
    let x = s.free_var_ident(&mut rng).unwrap();
    assert_eq!(x.str.chars().count(), 6);
}

#[test]
fn preamble_contents() {
    let mut f = ABSFormatter::new();
    abs_rand_module::fmt::write_class(&class_d(), 0, &mut f);
    assert_eq!(f.abs_code(), "class D implements I {\n\tInt n() {\n\t\treturn 0;\n\t}\n\t\n\tBool b() {\n\t\treturn False;\n\t}\n}");
    let mut f = ABSFormatter::new();
    abs_rand_module::fmt::write_class(&class_e(Target::Location), 0, &mut f);
    assert!(f.abs_code().contains("I getI(Bool flag, Int c) {\n\t\tI res = new D();\n\t\treturn res;\n\t}"));
    let mut f = ABSFormatter::new();
    abs_rand_module::fmt::write_interface(&interface_j(Target::Crowbar), 0, &mut f);
    assert!(f.abs_code().contains("[Spec: Ensures(result != null)] I getI(Bool flag, Int c);"));
    let mut f = ABSFormatter::new();
    abs_rand_module::fmt::write_datatype(&spec_datatype(), &mut f);
    assert_eq!(f.abs_code(), "data Spec = ObjInv(Bool) | Ensures(Bool) | Requires(Bool) | WhileInv(Bool);");
}

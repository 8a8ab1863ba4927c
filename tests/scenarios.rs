use abs_rand_module::ast::{Block, EffExpr, Expr, ModuleItem, PureExpr, Stmt};
use abs_rand_module::chance::PPM;
use abs_rand_module::generator::{Options, RandGenerator, Target};
use abs_rand_module::skeleton::{create_rand_method, gen_mock_module};

fn opts_with(target: Target, num: u32) -> Options {
    let mut o = Options::default();
    o.target = target;
    o.num_rand_classes = num;
    o
}

fn is_null_check(s: &Stmt) -> bool {
    match s {
        Stmt::If(f) => f.condition.to_text() == "i == null",
        _ => false,
    }
}

fn stmt_has_call(s: &Stmt) -> bool {
    let sync = |e: &Expr| {
        matches!(e, Expr::Eff(EffExpr::SyncCall(_)) | Expr::Eff(EffExpr::AsyncCall(_)) | Expr::Eff(EffExpr::Get(_)))
    };
    match s {
        Stmt::VarDecl(d) => d.init.as_ref().map_or(false, |e| sync(e)),
        Stmt::Assign(a) => sync(&a.expr),
        Stmt::Return(r) => sync(&r.expr),
        Stmt::Block(b) => b.stmts.iter().any(stmt_has_call),
        Stmt::If(f) => stmt_has_call(&f.then_branch) || f.else_branch.as_ref().map_or(false, |e| stmt_has_call(e)),
        _ => false,
    }
}

fn if_depth(s: &Stmt) -> usize {
    match s {
        Stmt::If(f) => {
            1 + if_depth(&f.then_branch).max(f.else_branch.as_ref().map_or(0, |e| if_depth(e)))
        }
        Stmt::Block(b) => b.stmts.iter().map(if_depth).max().unwrap_or(0),
        _ => 0,
    }
}

fn block_of(s: &Stmt) -> &Block {
    match s {
        Stmt::Block(b) => b,
        _ => panic!("not a block"),
    }
}

#[test]
fn preamble_only_module() {
    let m = gen_mock_module(opts_with(Target::NullableExtension, 0), 1);
    assert_eq!(m.children.len(), 4);
    let text = m.to_text();
    assert!(text.contains("interface I"));
    assert!(text.contains("interface J"));
    assert!(text.contains("class D"));
    assert!(text.contains("class E"));
    assert!(text.contains("class E implements J"));
    assert_eq!(text.matches("class ").count(), 2);
    assert!(!text.contains("Generated_"));
}

#[test]
fn crowbar_module_declares_spec_and_annotates_gen() {
    let m = gen_mock_module(opts_with(Target::Crowbar, 1), 2);
    assert_eq!(m.children.len(), 6);
    let text = m.to_text();
    assert!(text.contains("data Spec = ObjInv(Bool) | Ensures(Bool) | Requires(Bool) | WhileInv(Bool);"));
    assert!(text.contains("class Generated_0"));
    match &m.children[5] {
        ModuleItem::ClassDecl(c) => {
            assert_eq!(c.ident.str, "Generated_0");
            let sig = &c.methods[0].sig;
            assert_eq!(sig.ident.str, "gen");
            let mut sig_text = String::new();
            let mut f = abs_rand_module::fmt::ABSFormatter::new();
            abs_rand_module::fmt::write_sig(sig, &mut f);
            sig_text.push_str(&f.abs_code());
            assert!(sig_text.contains("[Spec: Requires(i != null)]"));
            assert!(sig_text.contains("[Spec: Ensures(result != null)]"));
        }
        _ => panic!("expected the generated class"),
    }
}

#[test]
fn minimal_body_is_null_check_then_return() {
    let mut o = opts_with(Target::NullableExtension, 1);
    o.max_depth = 0;
    o.avg_meth_body_size = 0;
    for seed in 0..20u64 {
        let m = create_rand_method(o, seed);
        let stmts = &m.body.stmts;
        assert_eq!(stmts.len(), 2);
        assert!(is_null_check(&stmts[0]));
        match &stmts[0] {
            Stmt::If(f) => {
                let then_block = block_of(&f.then_branch);
                assert_eq!(then_block.stmts.last().unwrap().to_text(), "i = new D();");
            }
            _ => panic!("expected the null check"),
        }
        assert_eq!(stmts[1].to_text(), "return i;");
        assert!(m.body.to_text().contains("if (i == null) {"));
    }
}

#[test]
fn location_target_never_emits_calls() {
    let mut o = opts_with(Target::Location, 3);
    o.avg_meth_body_size = 30;
    for seed in 0..30u64 {
        let m = gen_mock_module(o, seed);
        for item in &m.children {
            if let ModuleItem::ClassDecl(c) = item {
                for md in &c.methods {
                    assert!(!md.body.stmts.iter().any(stmt_has_call));
                }
            }
        }
        let text = m.to_text();
        assert!(!text.contains(".get"));
        assert!(!text.replace("! ", "").replace("!=", "").contains('!'));
        assert!(!text.contains("[NonNull]"));
        assert!(!text.contains("[Spec:"));
    }
}

#[test]
fn full_branching_with_empty_blocks_stays_within_depth() {
    let mut o = opts_with(Target::NullableExtension, 1);
    o.avg_block_size = 0;
    o.branch_rate = PPM;
    o.max_depth = 3;
    for seed in 0..20u64 {
        let m = create_rand_method(o, seed);
        for s in &m.body.stmts {
            assert!(if_depth(s) <= 3);
            if let Stmt::If(f) = s {
                let then_block = block_of(&f.then_branch);
                if is_null_check(s) {
                    assert_eq!(then_block.stmts.len(), 1);
                } else {
                    assert!(then_block.stmts.is_empty());
                }
                if let Some(e) = &f.else_branch {
                    assert!(block_of(e).stmts.is_empty());
                }
            }
        }
    }
}

#[test]
fn same_seed_same_output() {
    let o = opts_with(Target::Crowbar, 4);
    let a = gen_mock_module(o, 42).to_text();
    let b = gen_mock_module(o, 42).to_text();
    assert_eq!(a, b);
    let o = opts_with(Target::NullableExtension, 4);
    assert_eq!(gen_mock_module(o, 9).to_text(), gen_mock_module(o, 9).to_text());
}

#[test]
fn zero_body_size_gives_null_check_and_return() {
    let mut o = opts_with(Target::Crowbar, 1);
    o.avg_meth_body_size = 0;
    let mut g = RandGenerator::new(o, 5);
    let b = g.generate_body();
    assert_eq!(b.stmts.len(), 2);
    assert!(is_null_check(&b.stmts[0]));
    assert_eq!(b.stmts[1].to_text(), "return i;");
    assert_eq!(g.scope.stack.len(), 1);
}

#[test]
fn zero_depth_suppresses_generated_ifs() {
    let mut o = opts_with(Target::NullableExtension, 1);
    o.max_depth = 0;
    o.branch_rate = PPM;
    o.avg_meth_body_size = 15;
    for seed in 0..20u64 {
        let b = RandGenerator::new(o, seed).generate_body();
        let n = b.stmts.len();
        assert!(is_null_check(&b.stmts[n - 2]));
        for s in &b.stmts[..n - 2] {
            assert!(!matches!(s, Stmt::If(_)));
        }
    }
}

#[test]
fn body_has_one_null_check_and_ends_with_return() {
    let o = opts_with(Target::NullableExtension, 1);
    for seed in 0..40u64 {
        let b = RandGenerator::new(o, seed).generate_body();
        let n = b.stmts.len();
        assert_eq!(b.stmts[..n - 1].iter().filter(|s| is_null_check(s)).count(), 1);
        assert_eq!(b.stmts[n - 1].to_text(), "return i;");
    }
}

#[test]
fn module_counts_generated_classes() {
    let m = gen_mock_module(opts_with(Target::NullableExtension, 3), 11);
    assert_eq!(m.children.len(), 7);
    let text = m.to_text();
    assert!(text.contains("class Generated_0"));
    assert!(text.contains("class Generated_2"));
    assert!(!text.contains("class Generated_3"));
    assert!(text.starts_with("module MockABS;\n\n"));
}

#[test]
fn declared_names_are_fresh_six_letter_names() {
    let mut o = opts_with(Target::NullableExtension, 1);
    o.declare_to_assign = PPM;
    o.branch_rate = 0;
    o.avg_meth_body_size = 25;
    for seed in 0..10u64 {
        let b = RandGenerator::new(o, seed).generate_body();
        let mut names: Vec<String> = Vec::new();
        for s in &b.stmts {
            if let Stmt::VarDecl(d) = s {
                assert_eq!(d.ident.str.chars().count(), 6);
                assert!(d.ident.str.chars().next().unwrap().is_ascii_lowercase());
                assert!(!names.contains(&d.ident.str));
                assert!(!["fint", "fb", "ff", "ffb", "fi", "fj"].contains(&d.ident.str.as_str()));
                names.push(d.ident.str.clone());
            }
        }
    }
}

#[test]
fn generated_identifiers_are_in_scope() {
    let o = opts_with(Target::NullableExtension, 1);
    for seed in 0..10u64 {
        let b = RandGenerator::new(o, seed).generate_body();
        let mut known: Vec<String> = ["fint", "fb", "ff", "ffb", "fi", "fj"].iter().map(|s| s.to_string()).collect();
        for s in &b.stmts {
            match s {
                Stmt::Assign(a) if a.ident.str != "i" => assert!(known.contains(&a.ident.str)),
                Stmt::VarDecl(d) => known.push(d.ident.str.clone()),
                _ => {}
            }
            if let Stmt::Assign(a) = s {
                if let Expr::Pure(PureExpr::Ident(x)) = &a.expr {
                    assert!(known.contains(&x.ident.str));
                }
            }
        }
    }
}

#[test]
fn zero_else_ratio_gives_no_else_branch() {
    let mut o = opts_with(Target::NullableExtension, 1);
    o.else_ratio = 0;
    o.branch_rate = PPM;
    for seed in 0..10u64 {
        let b = RandGenerator::new(o, seed).generate_body();
        for s in &b.stmts {
            if let Stmt::If(f) = s {
                assert!(f.else_branch.is_none());
            }
        }
    }
}

#[test]
fn zero_branch_rate_appends_the_null_check() {
    let mut o = opts_with(Target::NullableExtension, 1);
    o.branch_rate = 0;
    for seed in 0..10u64 {
        let b = RandGenerator::new(o, seed).generate_body();
        let n = b.stmts.len();
        assert!(n >= 3);
        assert!(is_null_check(&b.stmts[n - 2]));
        assert!(b.stmts[..n - 2].iter().all(|s| !matches!(s, Stmt::If(_))));
    }
}

#[test]
fn logical_operators_on_request() {
    let mut o = opts_with(Target::NullableExtension, 1);
    o.avg_meth_body_size = 60;
    let quirk: String = (0..5u64).map(|s| RandGenerator::new(o, s).generate_body().to_text()).collect();
    assert!(!quirk.contains("||") && !quirk.contains("&&"));
    o.logical_ops = true;
    let logical: String = (0..5u64).map(|s| RandGenerator::new(o, s).generate_body().to_text()).collect();
    assert!(logical.contains("||") || logical.contains("&&"));
}

#[test]
fn generated_class_fields() {
    let m = gen_mock_module(opts_with(Target::NullableExtension, 1), 3);
    let text = m.to_text();
    assert!(text.contains("class Generated_0 {\n\tInt fint = 0;\n\tBool fb = True;\n\tFut<Int> ff;\n\tFut<Bool> ffb;\n\tI fi = null;\n\tJ fj = null;\n\t[NonNull] I gen([Nullable] I i) {"));
}

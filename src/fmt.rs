//! The pretty-printer: each node's text, as spec functions, and writers that
//! append exactly that text to an `ABSFormatter`.
use vstd::prelude::*;
use vstd::string::*;
use crate::ast::{
    Annotation, Annotations, BinaryOp, Block, CaseBranch, ClassDecl, DataConstr, DataTypeDecl,
    EffExpr, Expr, FieldDecl, Guard, Ident, InterfaceDecl, MethodDecl, MethodSig, Module,
    ModuleItem, OperatorExpr, Param, PureExpr, Stmt, Type, UnaryOp, VarDeclStmt, IfStmt, SwitchStmt,
    TryCatchFinallyStmt, DataConstrParam,
};

verus! {

/// Accumulates output text at an indentation level.
pub struct ABSFormatter {
    pub indent: u32,
    pub out: String,
    pub break_on_stmt: bool,
}

pub open spec fn tabs(n: nat) -> Seq<char> {
    Seq::new(n, |i: int| '\t')
}

/// A line break followed by the indentation of level `ind`.
pub open spec fn nl(ind: nat) -> Seq<char> {
    seq!['\n'] + tabs(ind)
}

impl ABSFormatter {
    pub fn new() -> (r: Self)
        ensures
            r.indent == 0,
            r.out@ == Seq::<char>::empty(),
            r.break_on_stmt,
    {
        ABSFormatter { indent: 0, out: String::new(), break_on_stmt: true }
    }

    pub fn add_indent(&mut self)
        requires
            old(self).indent < u32::MAX,
        ensures
            final(self).indent == old(self).indent + 1,
            final(self).out == old(self).out,
            final(self).break_on_stmt == old(self).break_on_stmt,
    {
        self.indent = self.indent + 1;
    }

    /// Lowers the indentation; it never goes below zero.
    pub fn sub_indent(&mut self)
        requires
            old(self).indent > 0,
        ensures
            final(self).indent == old(self).indent - 1,
            final(self).out == old(self).out,
            final(self).break_on_stmt == old(self).break_on_stmt,
    {
        self.indent = self.indent - 1;
    }

    pub fn add(&mut self, s: &str)
        ensures
            final(self).out@ == old(self).out@ + s@,
            final(self).indent == old(self).indent,
            final(self).break_on_stmt == old(self).break_on_stmt,
    {
        self.out.append(s);
    }

    pub fn indent_str(&self) -> (r: String)
        ensures
            r@ == tabs(self.indent as nat),
    {
        let mut s = String::new();
        let mut i: u32 = 0;
        while i < self.indent
            invariant
                i <= self.indent,
                s@ == tabs(i as nat),
            decreases self.indent - i,
        {
            crate::text::push_char(&mut s, '\t');
            i += 1;
            assert(s@ =~= tabs(i as nat));
        }
        s
    }

    pub fn new_line(&mut self)
        ensures
            final(self).out@ == old(self).out@ + nl(old(self).indent as nat),
            final(self).indent == old(self).indent,
            final(self).break_on_stmt == old(self).break_on_stmt,
    {
        let t = self.indent_str();
        crate::text::push_char(&mut self.out, '\n');
        self.out.append(t.as_str());
        assert(self.out@ =~= old(self).out@ + nl(old(self).indent as nat));
    }

    /// A line break followed by the indentation of level `ind`.
    pub fn line_at(&mut self, ind: u32)
        ensures
            final(self).out@ == old(self).out@ + nl(ind as nat),
            final(self).indent == old(self).indent,
            final(self).break_on_stmt == old(self).break_on_stmt,
    {
        crate::text::push_char(&mut self.out, '\n');
        let mut i: u32 = 0;
        while i < ind
            invariant
                i <= ind,
                self.out@ == old(self).out@ + seq!['\n'] + tabs(i as nat),
                self.indent == old(self).indent,
                self.break_on_stmt == old(self).break_on_stmt,
            decreases ind - i,
        {
            crate::text::push_char(&mut self.out, '\t');
            i += 1;
            assert(self.out@ =~= old(self).out@ + seq!['\n'] + tabs(i as nat));
        }
        assert(self.out@ =~= old(self).out@ + nl(ind as nat));
    }

    /// A line break where statements start, when the formatter breaks there.
    pub fn start_stmt(&mut self)
        ensures
            final(self).out@ == old(self).out@ + if old(self).break_on_stmt { nl(old(self).indent as nat) } else { Seq::empty() },
            final(self).indent == old(self).indent,
            final(self).break_on_stmt == old(self).break_on_stmt,
    {
        if self.break_on_stmt {
            self.new_line();
        }
    }

    pub fn abs_code(self) -> (r: String)
        ensures
            r == self.out,
    {
        self.out
    }
}


/// The next indentation level, saturating at the largest one.
pub open spec fn deeper(ind: nat) -> nat {
    if ind < u32::MAX as nat {
        ind + 1
    } else {
        ind
    }
}

pub fn deeper_exec(ind: u32) -> (r: u32)
    ensures
        r as nat == deeper(ind as nat),
{
    if ind < u32::MAX {
        ind + 1
    } else {
        ind
    }
}

pub open spec fn ty_text(t: Type) -> Seq<char>
    decreases t, 0nat,
{
    if t.args@.len() == 0 {
        t.ident.str@
    } else {
        t.ident.str@ + "<"@ + ty_list_text(t.args@, t.args@.len()) + ">"@
    }
}

/// The first `n` types, separated by `, `.
pub open spec fn ty_list_text(ts: Seq<Type>, n: nat) -> Seq<char>
    decreases ts, n,
{
    if n == 0 || n > ts.len() {
        seq![]
    } else if n == 1 {
        ty_text(ts[0])
    } else {
        ty_list_text(ts, (n - 1) as nat) + ", "@ + ty_text(ts[n - 1])
    }
}

pub open spec fn unop_text(op: UnaryOp) -> Seq<char> {
    match op {
        UnaryOp::Not => "!"@,
        UnaryOp::Minus => "-"@,
    }
}

pub open spec fn binop_text(op: BinaryOp) -> Seq<char> {
    match op {
        BinaryOp::Or => "||"@,
        BinaryOp::And => "&&"@,
        BinaryOp::Eq => "=="@,
        BinaryOp::Ne => "!="@,
        BinaryOp::Lt => "<"@,
        BinaryOp::Le => "<="@,
        BinaryOp::Gt => ">"@,
        BinaryOp::Ge => ">="@,
        BinaryOp::Plus => "+"@,
        BinaryOp::Minus => "-"@,
        BinaryOp::Mult => "*"@,
        BinaryOp::Div => "/"@,
        BinaryOp::Mod => "%"@,
    }
}

pub fn unop_str(op: UnaryOp) -> (r: &'static str)
    ensures
        r@ == unop_text(op),
{
    match op {
        UnaryOp::Not => "!",
        UnaryOp::Minus => "-",
    }
}

pub fn binop_str(op: BinaryOp) -> (r: &'static str)
    ensures
        r@ == binop_text(op),
{
    match op {
        BinaryOp::Or => "||",
        BinaryOp::And => "&&",
        BinaryOp::Eq => "==",
        BinaryOp::Ne => "!=",
        BinaryOp::Lt => "<",
        BinaryOp::Le => "<=",
        BinaryOp::Gt => ">",
        BinaryOp::Ge => ">=",
        BinaryOp::Plus => "+",
        BinaryOp::Minus => "-",
        BinaryOp::Mult => "*",
        BinaryOp::Div => "/",
        BinaryOp::Mod => "%",
    }
}

/// `name` followed by its arguments in parentheses.
pub open spec fn applied_text(name: Seq<char>, args: Seq<PureExpr>) -> Seq<char>
    decreases args, 0nat,
{
    name + "("@ + pure_list_text(args, args.len()) + ")"@
}

pub open spec fn pure_text(e: PureExpr) -> Seq<char>
    decreases e, 0nat,
{
    match e {
        PureExpr::Ident(x) => x.ident.str@,
        PureExpr::ThisIdent(x) => "this."@ + x.ident.str@,
        PureExpr::This => "this"@,
        PureExpr::Null => "null"@,
        PureExpr::Literal(l) => l.s@,
        PureExpr::TemplateString => "``"@,
        PureExpr::Let(l) => "let "@ + ty_text(l.ty) + " "@ + l.ident.str@ + " = "@ + pure_text(*l.value)
            + " in "@ + pure_text(*l.inner),
        PureExpr::DataConstr(d) => if d.args@.len() == 0 {
            d.ident.str@
        } else {
            d.ident.str@ + "("@ + pure_list_text(d.args@, d.args@.len()) + ")"@
        },
        PureExpr::FnApp(a) => a.ident.str@ + "("@ + pure_list_text(a.args@, a.args@.len()) + ")"@,
        PureExpr::ParFnApp(_) => "()"@,
        PureExpr::When(w) => "when "@ + pure_text(*w.condition) + " then "@ + pure_text(*w.then_branch)
            + " else "@ + pure_text(*w.else_branch),
        PureExpr::Case(c) => "case "@ + pure_text(*c.expr) + " { "@ + case_list_text(c.branches@, c.branches@.len())
            + " }"@,
        PureExpr::Operator(OperatorExpr::Unary(u)) => unop_text(u.op) + " "@ + pure_text(*u.expr),
        PureExpr::Operator(OperatorExpr::Binary(b)) => pure_text(*b.left) + " "@ + binop_text(b.op) + " "@
            + pure_text(*b.right),
        PureExpr::TypeCheck(t) => pure_text(*t.expr) + " implements "@ + t.ty.str@,
        PureExpr::TypeCast(t) => pure_text(*t.expr) + " as "@ + t.ty.str@,
    }
}

/// The first `n` expressions, separated by `, `.
pub open spec fn pure_list_text(es: Seq<PureExpr>, n: nat) -> Seq<char>
    decreases es, n,
{
    if n == 0 || n > es.len() {
        seq![]
    } else if n == 1 {
        pure_text(es[0])
    } else {
        pure_list_text(es, (n - 1) as nat) + ", "@ + pure_text(es[n - 1])
    }
}

/// The first `n` branches `_ => e`, separated by ` | `.
pub open spec fn case_list_text(bs: Seq<CaseBranch<PureExpr>>, n: nat) -> Seq<char>
    decreases bs, n,
{
    if n == 0 || n > bs.len() {
        seq![]
    } else if n == 1 {
        "_ => "@ + pure_text(bs[0].right)
    } else {
        case_list_text(bs, (n - 1) as nat) + " | "@ + "_ => "@ + pure_text(bs[n - 1].right)
    }
}

pub open spec fn eff_text(e: EffExpr) -> Seq<char> {
    match e {
        EffExpr::New(n) => "new "@ + (if n.local { "local "@ } else { Seq::empty() }) + n.ty.str@ + "("@
            + pure_list_text(n.args@, n.args@.len()) + ")"@,
        EffExpr::SyncCall(c) => pure_text(c.callee) + "."@ + c.method.str@ + "("@ + pure_list_text(
            c.args@,
            c.args@.len(),
        ) + ")"@,
        EffExpr::AsyncCall(c) => pure_text(c.callee) + "!"@ + c.method.str@ + "("@ + pure_list_text(
            c.args@,
            c.args@.len(),
        ) + ")"@,
        EffExpr::Get(g) => pure_text(g.expr) + ".get"@,
        EffExpr::Await(a) => "await "@ + pure_text(a.call.callee) + "!"@ + a.call.method.str@ + "("@
            + pure_list_text(a.call.args@, a.call.args@.len()) + ")"@,
    }
}

pub open spec fn expr_text(e: Expr) -> Seq<char> {
    match e {
        Expr::Pure(p) => pure_text(p),
        Expr::Eff(x) => eff_text(x),
    }
}

pub open spec fn anno_text(a: Annotation) -> Seq<char> {
    match a {
        Annotation::Typed(t) => "["@ + ty_text(t.ty) + ": "@ + pure_text(t.expr) + "]"@,
        Annotation::Untyped(u) => "["@ + pure_text(u.0) + "]"@,
    }
}

/// The first `n` annotations, separated by spaces.
pub open spec fn annos_text(as_: Seq<Annotation>, n: nat) -> Seq<char>
    decreases n,
{
    if n == 0 || n > as_.len() {
        seq![]
    } else if n == 1 {
        anno_text(as_[0])
    } else {
        annos_text(as_, (n - 1) as nat) + " "@ + anno_text(as_[n - 1])
    }
}

/// Annotations in front of a declaration, with a space after them.
pub open spec fn annos_prefix(a: Annotations) -> Seq<char> {
    if a.0@.len() == 0 {
        seq![]
    } else {
        annos_text(a.0@, a.0@.len()) + " "@
    }
}

pub fn write_ty(t: &Type, f: &mut ABSFormatter)
    ensures
        final(f).out@ == old(f).out@ + ty_text(*t),
        final(f).indent == old(f).indent,
    decreases t,
{
    f.add(t.ident.str.as_str());
    if t.args.len() > 0 {
        f.add("<");
        let ghost start = f.out@;
        let mut i: usize = 0;
        while i < t.args.len()
            invariant
                i <= t.args@.len(),
                f.out@ == start + ty_list_text(t.args@, i as nat),
                f.indent == old(f).indent,
            decreases t.args@.len() - i,
        {
            if i > 0 {
                f.add(", ");
            }
            proof {
                assert(decreases_to!(t => t.args@[i as int]));
            }
            write_ty(&t.args[i], f);
            i += 1;
            proof {
                if i == 1 {
                    assert(ty_list_text(t.args@, 0) == Seq::<char>::empty());
                }
                assert(f.out@ =~= start + ty_list_text(t.args@, i as nat));
            }
        }
        f.add(">");
        assert(f.out@ =~= old(f).out@ + ty_text(*t));
    } else {
        assert(f.out@ =~= old(f).out@ + ty_text(*t));
    }
}

/// Writes `args` separated by `, `.
pub fn write_pure_list(args: &Vec<PureExpr>, f: &mut ABSFormatter)
    ensures
        final(f).out@ == old(f).out@ + pure_list_text(args@, args@.len()),
        final(f).indent == old(f).indent,
    decreases args@, 1nat,
{
    let ghost start = f.out@;
    let mut i: usize = 0;
    while i < args.len()
        invariant
            i <= args@.len(),
            f.out@ == start + pure_list_text(args@, i as nat),
            f.indent == old(f).indent,
        decreases args@.len() - i,
    {
        if i > 0 {
            f.add(", ");
        }
        proof {
            assert(decreases_to!(args@ => args@[i as int]));
        }
        write_pure(&args[i], f);
        i += 1;
        proof {
            if i == 1 {
                assert(pure_list_text(args@, 0) == Seq::<char>::empty());
            }
            assert(f.out@ =~= start + pure_list_text(args@, i as nat));
        }
    }
}

/// Writes the branches `_ => e` separated by ` | `.
pub fn write_case_list(bs: &Vec<CaseBranch<PureExpr>>, f: &mut ABSFormatter)
    ensures
        final(f).out@ == old(f).out@ + case_list_text(bs@, bs@.len()),
        final(f).indent == old(f).indent,
    decreases bs@, 1nat,
{
    let ghost start = f.out@;
    let mut i: usize = 0;
    while i < bs.len()
        invariant
            i <= bs@.len(),
            f.out@ == start + case_list_text(bs@, i as nat),
            f.indent == old(f).indent,
        decreases bs@.len() - i,
    {
        if i > 0 {
            f.add(" | ");
        }
        f.add("_ => ");
        proof {
            assert(decreases_to!(bs@ => bs@[i as int]));
            assert(decreases_to!(bs@[i as int] => bs@[i as int].right));
            assert(decreases_to!(bs@ => bs@[i as int].right));
        }
        write_pure(&bs[i].right, f);
        i += 1;
        proof {
            if i == 1 {
                assert(case_list_text(bs@, 0) == Seq::<char>::empty());
            }
            assert(f.out@ =~= start + case_list_text(bs@, i as nat));
        }
    }
}

pub fn write_pure(e: &PureExpr, f: &mut ABSFormatter)
    ensures
        final(f).out@ == old(f).out@ + pure_text(*e),
        final(f).indent == old(f).indent,
    decreases *e, 2nat,
{
    let ghost start = f.out@;
    match e {
        PureExpr::Ident(x) => {
            f.add(x.ident.str.as_str());
        },
        PureExpr::ThisIdent(x) => {
            f.add("this.");
            f.add(x.ident.str.as_str());
        },
        PureExpr::This => {
            f.add("this");
        },
        PureExpr::Null => {
            f.add("null");
        },
        PureExpr::Literal(l) => {
            f.add(l.s.as_str());
        },
        PureExpr::TemplateString => {
            f.add("``");
        },
        PureExpr::Let(l) => {
            f.add("let ");
            write_ty(&l.ty, f);
            f.add(" ");
            f.add(l.ident.str.as_str());
            f.add(" = ");
            write_pure(&l.value, f);
            f.add(" in ");
            write_pure(&l.inner, f);
        },
        PureExpr::DataConstr(d) => {
            f.add(d.ident.str.as_str());
            if d.args.len() > 0 {
                f.add("(");
                write_pure_list(&d.args, f);
                f.add(")");
            }
        },
        PureExpr::FnApp(a) => {
            f.add(a.ident.str.as_str());
            f.add("(");
            write_pure_list(&a.args, f);
            f.add(")");
        },
        PureExpr::ParFnApp(_) => {
            f.add("()");
        },
        PureExpr::When(w) => {
            f.add("when ");
            write_pure(&w.condition, f);
            f.add(" then ");
            write_pure(&w.then_branch, f);
            f.add(" else ");
            write_pure(&w.else_branch, f);
        },
        PureExpr::Case(c) => {
            f.add("case ");
            write_pure(&c.expr, f);
            f.add(" { ");
            write_case_list(&c.branches, f);
            f.add(" }");
        },
        PureExpr::Operator(OperatorExpr::Unary(u)) => {
            f.add(unop_str(u.op));
            f.add(" ");
            write_pure(&u.expr, f);
        },
        PureExpr::Operator(OperatorExpr::Binary(b)) => {
            write_pure(&b.left, f);
            f.add(" ");
            f.add(binop_str(b.op));
            f.add(" ");
            write_pure(&b.right, f);
        },
        PureExpr::TypeCheck(t) => {
            write_pure(&t.expr, f);
            f.add(" implements ");
            f.add(t.ty.str.as_str());
        },
        PureExpr::TypeCast(t) => {
            write_pure(&t.expr, f);
            f.add(" as ");
            f.add(t.ty.str.as_str());
        },
    }
    assert(f.out@ =~= start + pure_text(*e));
}

pub fn write_eff(e: &EffExpr, f: &mut ABSFormatter)
    ensures
        final(f).out@ == old(f).out@ + eff_text(*e),
        final(f).indent == old(f).indent,
{
    let ghost start = f.out@;
    match e {
        EffExpr::New(n) => {
            f.add("new ");
            if n.local {
                f.add("local ");
            }
            f.add(n.ty.str.as_str());
            f.add("(");
            write_pure_list(&n.args, f);
            f.add(")");
        },
        EffExpr::SyncCall(c) => {
            write_pure(&c.callee, f);
            f.add(".");
            f.add(c.method.str.as_str());
            f.add("(");
            write_pure_list(&c.args, f);
            f.add(")");
        },
        EffExpr::AsyncCall(c) => {
            write_pure(&c.callee, f);
            f.add("!");
            f.add(c.method.str.as_str());
            f.add("(");
            write_pure_list(&c.args, f);
            f.add(")");
        },
        EffExpr::Get(g) => {
            write_pure(&g.expr, f);
            f.add(".get");
        },
        EffExpr::Await(a) => {
            f.add("await ");
            write_pure(&a.call.callee, f);
            f.add("!");
            f.add(a.call.method.str.as_str());
            f.add("(");
            write_pure_list(&a.call.args, f);
            f.add(")");
        },
    }
    assert(f.out@ =~= start + eff_text(*e));
}

pub fn write_expr(e: &Expr, f: &mut ABSFormatter)
    ensures
        final(f).out@ == old(f).out@ + expr_text(*e),
        final(f).indent == old(f).indent,
{
    match e {
        Expr::Pure(p) => write_pure(p, f),
        Expr::Eff(x) => write_eff(x, f),
    }
}

pub fn write_anno(a: &Annotation, f: &mut ABSFormatter)
    ensures
        final(f).out@ == old(f).out@ + anno_text(*a),
        final(f).indent == old(f).indent,
{
    let ghost start = f.out@;
    f.add("[");
    match a {
        Annotation::Typed(t) => {
            write_ty(&t.ty, f);
            f.add(": ");
            write_pure(&t.expr, f);
        },
        Annotation::Untyped(u) => {
            write_pure(&u.0, f);
        },
    }
    f.add("]");
    assert(f.out@ =~= start + anno_text(*a));
}

/// Writes the annotations followed by a space, or nothing when there are none.
pub fn write_annos_prefix(a: &Annotations, f: &mut ABSFormatter)
    ensures
        final(f).out@ == old(f).out@ + annos_prefix(*a),
        final(f).indent == old(f).indent,
{
    let ghost start = f.out@;
    if a.0.len() == 0 {
        assert(f.out@ =~= start + annos_prefix(*a));
        return;
    }
    let mut i: usize = 0;
    while i < a.0.len()
        invariant
            i <= a.0@.len(),
            f.out@ == start + annos_text(a.0@, i as nat),
            f.indent == old(f).indent,
        decreases a.0@.len() - i,
    {
        if i > 0 {
            f.add(" ");
        }
        write_anno(&a.0[i], f);
        i += 1;
        proof {
            if i == 1 {
                assert(annos_text(a.0@, 0) == Seq::<char>::empty());
            }
            assert(f.out@ =~= start + annos_text(a.0@, i as nat));
        }
    }
    f.add(" ");
    assert(f.out@ =~= start + annos_prefix(*a));
}


/// `parts` separated by `sep`.
pub open spec fn join(parts: Seq<Seq<char>>, sep: Seq<char>) -> Seq<char>
    decreases parts.len(),
{
    if parts.len() == 0 {
        seq![]
    } else if parts.len() == 1 {
        parts[0]
    } else {
        join(parts.drop_last(), sep) + sep + parts.last()
    }
}

pub proof fn lemma_join_step(parts: Seq<Seq<char>>, i: int, sep: Seq<char>)
    requires
        0 <= i < parts.len(),
    ensures
        join(parts.take(i + 1), sep) == if i == 0 { parts[0] } else { join(parts.take(i), sep) + sep + parts[i] },
{
    assert(parts.take(i + 1).drop_last() =~= parts.take(i));
    if i == 0 {
        assert(parts.take(1).len() == 1);
    }
}

pub open spec fn guard_text(g: Guard) -> Seq<char>
    decreases g,
{
    match g {
        Guard::Claim { this, ident } => (if this { "this."@ } else { Seq::empty() }) + ident.str@ + "?"@,
        Guard::Expr(e) => pure_text(e),
        Guard::And(l, r) => guard_text(*l) + " & "@ + guard_text(*r),
        Guard::Duration(a, b) => "duration("@ + pure_text(a) + ", "@ + pure_text(b) + ")"@,
    }
}

/// `{`, the inner text one level deeper, and `}` on a line of its own.
pub open spec fn braced_text(inner: Seq<char>, ind: nat) -> Seq<char> {
    "{"@ + nl(deeper(ind)) + inner + nl(ind) + "}"@
}

pub open spec fn stmt_text(s: Stmt, ind: nat) -> Seq<char>
    decreases s, 0nat,
{
    match s {
        Stmt::Skip => "skip;"@,
        Stmt::VarDecl(d) => annos_prefix(d.annotations) + ty_text(d.ty) + " "@ + d.ident.str@ + (match d.init {
            Some(x) => " = "@ + expr_text(x),
            None => Seq::empty(),
        }) + ";"@,
        Stmt::Assign(a) => (if a.this { "this."@ } else { Seq::empty() }) + a.ident.str@ + " = "@ + expr_text(a.expr) + ";"@,
        Stmt::Expr(e) => expr_text(e.expr) + ";"@,
        Stmt::Assert(a) => "assert "@ + pure_text(a.condition) + ";"@,
        Stmt::Await(a) => "await "@ + guard_text(a.guard) + ";"@,
        Stmt::Suspend => "suspend;"@,
        Stmt::Throw(t) => "throw "@ + pure_text(t.expr) + ";"@,
        Stmt::Return(r) => "return "@ + expr_text(r.expr) + ";"@,
        Stmt::Block(b) => braced_text(stmts_text(b.stmts@, b.stmts@.len(), deeper(ind)), ind),
        Stmt::If(f) => "if ("@ + pure_text(f.condition) + ") "@ + stmt_text(*f.then_branch, ind) + match f.else_branch {
            Some(e) => " else "@ + stmt_text(*e, ind),
            None => Seq::empty(),
        },
        Stmt::Switch(w) => "switch "@ + pure_text(w.expr) + " "@ + braced_text(
            branches_text(w.branches@, w.branches@.len(), deeper(ind)),
            ind,
        ),
        Stmt::While(w) => "while ("@ + pure_text(w.condition) + ") "@ + stmt_text(*w.body, ind),
        Stmt::Foreach(w) => "foreach ("@ + w.loop_var.str@ + " in "@ + pure_text(w.iter) + ") "@ + stmt_text(*w.body, ind),
        Stmt::TryCatchFinally(t) => "try "@ + stmt_text(*t.attempt, ind) + " catch "@ + braced_text(
            branches_text(t.catch_branches@, t.catch_branches@.len(), deeper(ind)),
            ind,
        ) + match t.finally {
            Some(x) => " finally "@ + stmt_text(*x, ind),
            None => Seq::empty(),
        },
    }
}

/// The first `n` statements, one per line at level `ind`.
pub open spec fn stmts_text(ss: Seq<Stmt>, n: nat, ind: nat) -> Seq<char>
    decreases ss, n,
{
    if n == 0 || n > ss.len() {
        seq![]
    } else if n == 1 {
        stmt_text(ss[0], ind)
    } else {
        stmts_text(ss, (n - 1) as nat, ind) + nl(ind) + stmt_text(ss[n - 1], ind)
    }
}

/// The first `n` branches `_ => s`, one per line at level `ind`.
pub open spec fn branches_text(bs: Seq<CaseBranch<Stmt>>, n: nat, ind: nat) -> Seq<char>
    decreases bs, n,
{
    if n == 0 || n > bs.len() {
        seq![]
    } else if n == 1 {
        "_ => "@ + stmt_text(bs[0].right, ind)
    } else {
        branches_text(bs, (n - 1) as nat, ind) + nl(ind) + "_ => "@ + stmt_text(bs[n - 1].right, ind)
    }
}

pub open spec fn block_text(b: Block, ind: nat) -> Seq<char> {
    braced_text(stmts_text(b.stmts@, b.stmts@.len(), deeper(ind)), ind)
}

pub fn write_guard(g: &Guard, f: &mut ABSFormatter)
    ensures
        final(f).out@ == old(f).out@ + guard_text(*g),
        final(f).indent == old(f).indent,
    decreases g,
{
    let ghost start = f.out@;
    match g {
        Guard::Claim { this, ident } => {
            if *this {
                f.add("this.");
            }
            f.add(ident.str.as_str());
            f.add("?");
        },
        Guard::Expr(e) => write_pure(e, f),
        Guard::And(l, r) => {
            write_guard(l, f);
            f.add(" & ");
            write_guard(r, f);
        },
        Guard::Duration(a, b) => {
            f.add("duration(");
            write_pure(a, f);
            f.add(", ");
            write_pure(b, f);
            f.add(")");
        },
    }
    assert(f.out@ =~= start + guard_text(*g));
}

/// Writes the statements one per line at level `ind`.
pub fn write_stmts(ss: &Vec<Stmt>, ind: u32, f: &mut ABSFormatter)
    ensures
        final(f).out@ == old(f).out@ + stmts_text(ss@, ss@.len(), ind as nat),
        final(f).indent == old(f).indent,
    decreases ss@, 1nat,
{
    let ghost start = f.out@;
    let mut i: usize = 0;
    while i < ss.len()
        invariant
            i <= ss@.len(),
            f.out@ == start + stmts_text(ss@, i as nat, ind as nat),
            f.indent == old(f).indent,
        decreases ss@.len() - i,
    {
        if i > 0 {
            f.line_at(ind);
        }
        proof {
            assert(decreases_to!(ss@ => ss@[i as int]));
        }
        write_stmt(&ss[i], ind, f);
        i += 1;
        proof {
            if i == 1 {
                assert(stmts_text(ss@, 0, ind as nat) == Seq::<char>::empty());
            }
            assert(f.out@ =~= start + stmts_text(ss@, i as nat, ind as nat));
        }
    }
}

/// Writes the branches `_ => s` one per line at level `ind`.
pub fn write_branches(bs: &Vec<CaseBranch<Stmt>>, ind: u32, f: &mut ABSFormatter)
    ensures
        final(f).out@ == old(f).out@ + branches_text(bs@, bs@.len(), ind as nat),
        final(f).indent == old(f).indent,
    decreases bs@, 1nat,
{
    let ghost start = f.out@;
    let mut i: usize = 0;
    while i < bs.len()
        invariant
            i <= bs@.len(),
            f.out@ == start + branches_text(bs@, i as nat, ind as nat),
            f.indent == old(f).indent,
        decreases bs@.len() - i,
    {
        if i > 0 {
            f.line_at(ind);
        }
        f.add("_ => ");
        proof {
            assert(decreases_to!(bs@ => bs@[i as int]));
            assert(decreases_to!(bs@[i as int] => bs@[i as int].right));
            assert(decreases_to!(bs@ => bs@[i as int].right));
        }
        write_stmt(&bs[i].right, ind, f);
        i += 1;
        proof {
            if i == 1 {
                assert(branches_text(bs@, 0, ind as nat) == Seq::<char>::empty());
            }
            assert(f.out@ =~= start + branches_text(bs@, i as nat, ind as nat));
        }
    }
}

/// Writes `{`, the statements one level deeper, and `}`.
pub fn write_block(b: &Block, ind: u32, f: &mut ABSFormatter)
    ensures
        final(f).out@ == old(f).out@ + block_text(*b, ind as nat),
        final(f).indent == old(f).indent,
    decreases *b, 3nat,
{
    let ghost start = f.out@;
    let d = deeper_exec(ind);
    f.add("{");
    f.line_at(d);
    write_stmts(&b.stmts, d, f);
    f.line_at(ind);
    f.add("}");
    assert(f.out@ =~= start + block_text(*b, ind as nat));
}

fn write_var_decl(d: &VarDeclStmt, f: &mut ABSFormatter)
    ensures
        final(f).out@ == old(f).out@ + stmt_text(Stmt::VarDecl(*d), 0),
        final(f).indent == old(f).indent,
{
    let ghost start = f.out@;
    write_annos_prefix(&d.annotations, f);
    write_ty(&d.ty, f);
    f.add(" ");
    f.add(d.ident.str.as_str());
    match &d.init {
        Some(x) => {
            f.add(" = ");
            write_expr(x, f);
        },
        None => {},
    }
    f.add(";");
    assert(f.out@ =~= start + stmt_text(Stmt::VarDecl(*d), 0));
}

fn write_if(c: &IfStmt, ind: u32, f: &mut ABSFormatter)
    ensures
        final(f).out@ == old(f).out@ + stmt_text(Stmt::If(*c), ind as nat),
        final(f).indent == old(f).indent,
    decreases *c, 2nat,
{
    let ghost start = f.out@;
    f.add("if (");
    write_pure(&c.condition, f);
    f.add(") ");
    write_stmt(&c.then_branch, ind, f);
    match &c.else_branch {
        Some(e) => {
            f.add(" else ");
            write_stmt(e, ind, f);
        },
        None => {},
    }
    assert(f.out@ =~= start + stmt_text(Stmt::If(*c), ind as nat));
}

fn write_switch(w: &SwitchStmt, ind: u32, f: &mut ABSFormatter)
    ensures
        final(f).out@ == old(f).out@ + stmt_text(Stmt::Switch(*w), ind as nat),
        final(f).indent == old(f).indent,
    decreases *w, 2nat,
{
    let ghost start = f.out@;
    f.add("switch ");
    write_pure(&w.expr, f);
    f.add(" ");
    let d = deeper_exec(ind);
    f.add("{");
    f.line_at(d);
    write_branches(&w.branches, d, f);
    f.line_at(ind);
    f.add("}");
    assert(f.out@ =~= start + stmt_text(Stmt::Switch(*w), ind as nat));
}

#[verifier::rlimit(40)]
fn write_try(t: &TryCatchFinallyStmt, ind: u32, f: &mut ABSFormatter)
    ensures
        final(f).out@ == old(f).out@ + stmt_text(Stmt::TryCatchFinally(*t), ind as nat),
        final(f).indent == old(f).indent,
    decreases *t, 2nat,
{
    let ghost start = f.out@;
    f.add("try ");
    write_stmt(&t.attempt, ind, f);
    f.add(" catch ");
    let d = deeper_exec(ind);
    f.add("{");
    f.line_at(d);
    write_branches(&t.catch_branches, d, f);
    f.line_at(ind);
    f.add("}");
    match &t.finally {
        Some(x) => {
            f.add(" finally ");
            write_stmt(x, ind, f);
        },
        None => {},
    }
    assert(f.out@ =~= start + stmt_text(Stmt::TryCatchFinally(*t), ind as nat));
}

fn write_loop(head: &str, w: &Stmt, ind: u32, f: &mut ABSFormatter)
    ensures
        final(f).out@ == old(f).out@ + head@ + stmt_text(*w, ind as nat),
        final(f).indent == old(f).indent,
    decreases *w, 5nat,
{
    f.add(head);
    write_stmt(w, ind, f);
}

pub fn write_stmt(s: &Stmt, ind: u32, f: &mut ABSFormatter)
    ensures
        final(f).out@ == old(f).out@ + stmt_text(*s, ind as nat),
        final(f).indent == old(f).indent,
    decreases *s, 4nat,
{
    let ghost start = f.out@;
    match s {
        Stmt::Skip => {
            f.add("skip;");
            assert(f.out@ =~= start + stmt_text(*s, ind as nat));
        },
        Stmt::VarDecl(d) => write_var_decl(d, f),
        Stmt::Assign(a) => {
            if a.this {
                f.add("this.");
            }
            f.add(a.ident.str.as_str());
            f.add(" = ");
            write_expr(&a.expr, f);
            f.add(";");
            assert(f.out@ =~= start + stmt_text(*s, ind as nat));
        },
        Stmt::Expr(e) => {
            write_expr(&e.expr, f);
            f.add(";");
            assert(f.out@ =~= start + stmt_text(*s, ind as nat));
        },
        Stmt::Assert(a) => {
            f.add("assert ");
            write_pure(&a.condition, f);
            f.add(";");
            assert(f.out@ =~= start + stmt_text(*s, ind as nat));
        },
        Stmt::Await(a) => {
            f.add("await ");
            write_guard(&a.guard, f);
            f.add(";");
            assert(f.out@ =~= start + stmt_text(*s, ind as nat));
        },
        Stmt::Suspend => {
            f.add("suspend;");
            assert(f.out@ =~= start + stmt_text(*s, ind as nat));
        },
        Stmt::Throw(t) => {
            f.add("throw ");
            write_pure(&t.expr, f);
            f.add(";");
            assert(f.out@ =~= start + stmt_text(*s, ind as nat));
        },
        Stmt::Return(r) => {
            f.add("return ");
            write_expr(&r.expr, f);
            f.add(";");
            assert(f.out@ =~= start + stmt_text(*s, ind as nat));
        },
        Stmt::Block(b) => write_block(b, ind, f),
        Stmt::If(c) => write_if(c, ind, f),
        Stmt::Switch(w) => write_switch(w, ind, f),
        Stmt::While(w) => {
            f.add("while (");
            write_pure(&w.condition, f);
            write_loop(") ", &w.body, ind, f);
            assert(f.out@ =~= start + stmt_text(*s, ind as nat));
        },
        Stmt::Foreach(w) => {
            f.add("foreach (");
            f.add(w.loop_var.str.as_str());
            f.add(" in ");
            write_pure(&w.iter, f);
            write_loop(") ", &w.body, ind, f);
            assert(f.out@ =~= start + stmt_text(*s, ind as nat));
        },
        Stmt::TryCatchFinally(t) => write_try(t, ind, f),
    }
}


pub open spec fn param_text(p: Param) -> Seq<char> {
    annos_prefix(p.annotations) + ty_text(p.ty) + " "@ + p.ident.str@
}

pub open spec fn params_text(ps: Seq<Param>) -> Seq<char> {
    join(ps.map_values(|p: Param| param_text(p)), ", "@)
}

pub open spec fn idents_text(is: Seq<Ident>) -> Seq<char> {
    join(is.map_values(|i: Ident| i.str@), ", "@)
}

pub open spec fn sig_text(m: MethodSig) -> Seq<char> {
    annos_prefix(m.annotations) + ty_text(m.ret) + " "@ + m.ident.str@ + "("@ + params_text(m.params@) + ")"@
}

pub open spec fn field_text(fd: FieldDecl) -> Seq<char> {
    annos_prefix(fd.annotations) + ty_text(fd.ty) + " "@ + fd.ident.str@ + (match fd.init {
        Some(e) => " = "@ + pure_text(e),
        None => Seq::empty(),
    }) + ";"@
}

pub open spec fn method_text(md: MethodDecl, ind: nat) -> Seq<char> {
    sig_text(md.sig) + " "@ + block_text(md.body, ind)
}

pub open spec fn interface_text(i: InterfaceDecl, ind: nat) -> Seq<char> {
    "interface "@ + i.ident.str@ + " "@ + (if i.extends@.len() > 0 {
        "extends "@ + idents_text(i.extends@) + " "@
    } else {
        Seq::empty()
    }) + braced_text(join(i.sigs@.map_values(|m: MethodSig| sig_text(m) + ";"@), nl(deeper(ind))), ind)
}

pub open spec fn fields_text(fs: Seq<FieldDecl>, ind: nat) -> Seq<char> {
    join(fs.map_values(|fd: FieldDecl| field_text(fd) + nl(ind)), Seq::empty())
}

pub open spec fn init_text(init: Option<Block>, ind: nat) -> Seq<char> {
    match init {
        Some(b) => block_text(b, ind) + nl(ind),
        None => Seq::empty(),
    }
}

pub open spec fn recover_text(bs: Seq<CaseBranch<Stmt>>, ind: nat) -> Seq<char> {
    if bs.len() > 0 {
        "recover "@ + braced_text(branches_text(bs, bs.len(), deeper(ind)), ind)
    } else {
        Seq::empty()
    }
}

pub open spec fn methods_text(ms: Seq<MethodDecl>, ind: nat) -> Seq<char> {
    join(ms.map_values(|m: MethodDecl| method_text(m, ind)), nl(ind) + nl(ind))
}

/// Fields, each followed by a line break; the init block; the recover
/// branches; then the methods separated by blank lines.
pub open spec fn class_body_text(c: ClassDecl, ind: nat) -> Seq<char> {
    fields_text(c.fields@, ind) + init_text(c.init, ind) + recover_text(c.recover@, ind) + methods_text(c.methods@, ind)
}

/// Annotations, name, parameters and interfaces of a class.
pub open spec fn class_head_text(c: ClassDecl) -> Seq<char> {
    annos_prefix(c.annotations) + "class "@ + c.ident.str@ + (if c.params@.len() > 0 {
        "("@ + params_text(c.params@) + ")"@
    } else {
        Seq::empty()
    }) + (if c.implements@.len() > 0 {
        " implements "@ + idents_text(c.implements@)
    } else {
        Seq::empty()
    })
}

pub open spec fn class_text(c: ClassDecl, ind: nat) -> Seq<char> {
    class_head_text(c) + " "@ + braced_text(class_body_text(c, deeper(ind)), ind)
}

pub open spec fn cparam_text(p: DataConstrParam) -> Seq<char> {
    ty_text(p.ty) + match p.ident {
        Some(x) => " "@ + x.str@,
        None => Seq::empty(),
    }
}

pub open spec fn constr_text(c: DataConstr) -> Seq<char> {
    c.ident.str@ + if c.params@.len() > 0 {
        "("@ + join(c.params@.map_values(|p: DataConstrParam| cparam_text(p)), ", "@) + ")"@
    } else {
        Seq::empty()
    }
}

pub open spec fn datatype_text(d: DataTypeDecl) -> Seq<char> {
    "data "@ + d.ident.str@ + (if d.params@.len() > 0 {
        "<"@ + idents_text(d.params@) + ">"@
    } else {
        Seq::empty()
    }) + " = "@ + join(d.constr@.map_values(|c: DataConstr| constr_text(c)), " | "@) + ";"@
}

pub open spec fn item_text(it: ModuleItem, ind: nat) -> Seq<char> {
    match it {
        ModuleItem::DataTypeDecl(d) => datatype_text(d),
        ModuleItem::InterfaceDecl(i) => interface_text(i, ind),
        ModuleItem::ClassDecl(c) => class_text(c, ind),
        ModuleItem::MainBlock(b) => block_text(b, ind),
    }
}

/// `module name;`, a blank line, then each item followed by a blank line.
pub open spec fn module_text(m: Module) -> Seq<char> {
    "module "@ + m.name.str@ + ";"@ + nl(0) + nl(0) + join(
        m.children@.map_values(|it: ModuleItem| item_text(it, 0) + nl(0) + nl(0)),
        Seq::empty(),
    )
}

pub fn write_param(p: &Param, f: &mut ABSFormatter)
    ensures
        final(f).out@ == old(f).out@ + param_text(*p),
        final(f).indent == old(f).indent,
{
    let ghost start = f.out@;
    write_annos_prefix(&p.annotations, f);
    write_ty(&p.ty, f);
    f.add(" ");
    f.add(p.ident.str.as_str());
    assert(f.out@ =~= start + param_text(*p));
}

pub fn write_params(ps: &Vec<Param>, f: &mut ABSFormatter)
    ensures
        final(f).out@ == old(f).out@ + params_text(ps@),
        final(f).indent == old(f).indent,
{
    let ghost start = f.out@;
    let ghost parts = ps@.map_values(|p: Param| param_text(p));
    let mut i: usize = 0;
    while i < ps.len()
        invariant
            i <= ps@.len(),
            parts == ps@.map_values(|p: Param| param_text(p)),
            f.out@ == start + join(parts.take(i as int), ", "@),
            f.indent == old(f).indent,
        decreases ps@.len() - i,
    {
        if i > 0 {
            f.add(", ");
        }
        write_param(&ps[i], f);
        proof {
            lemma_join_step(parts, i as int, ", "@);
        }
        i += 1;
        assert(f.out@ =~= start + join(parts.take(i as int), ", "@));
    }
    assert(parts.take(ps@.len() as int) =~= parts);
}

pub fn write_idents(is: &Vec<Ident>, f: &mut ABSFormatter)
    ensures
        final(f).out@ == old(f).out@ + idents_text(is@),
        final(f).indent == old(f).indent,
{
    let ghost start = f.out@;
    let ghost parts = is@.map_values(|i: Ident| i.str@);
    let mut i: usize = 0;
    while i < is.len()
        invariant
            i <= is@.len(),
            parts == is@.map_values(|i: Ident| i.str@),
            f.out@ == start + join(parts.take(i as int), ", "@),
            f.indent == old(f).indent,
        decreases is@.len() - i,
    {
        if i > 0 {
            f.add(", ");
        }
        f.add(is[i].str.as_str());
        proof {
            lemma_join_step(parts, i as int, ", "@);
        }
        i += 1;
        assert(f.out@ =~= start + join(parts.take(i as int), ", "@));
    }
    assert(parts.take(is@.len() as int) =~= parts);
}

pub fn write_sig(m: &MethodSig, f: &mut ABSFormatter)
    ensures
        final(f).out@ == old(f).out@ + sig_text(*m),
        final(f).indent == old(f).indent,
{
    let ghost start = f.out@;
    write_annos_prefix(&m.annotations, f);
    write_ty(&m.ret, f);
    f.add(" ");
    f.add(m.ident.str.as_str());
    f.add("(");
    write_params(&m.params, f);
    f.add(")");
    assert(f.out@ =~= start + sig_text(*m));
}

pub fn write_field(fd: &FieldDecl, f: &mut ABSFormatter)
    ensures
        final(f).out@ == old(f).out@ + field_text(*fd),
        final(f).indent == old(f).indent,
{
    let ghost start = f.out@;
    write_annos_prefix(&fd.annotations, f);
    write_ty(&fd.ty, f);
    f.add(" ");
    f.add(fd.ident.str.as_str());
    match &fd.init {
        Some(e) => {
            f.add(" = ");
            write_pure(e, f);
        },
        None => {},
    }
    f.add(";");
    assert(f.out@ =~= start + field_text(*fd));
}

pub fn write_method(md: &MethodDecl, ind: u32, f: &mut ABSFormatter)
    ensures
        final(f).out@ == old(f).out@ + method_text(*md, ind as nat),
        final(f).indent == old(f).indent,
{
    let ghost start = f.out@;
    write_sig(&md.sig, f);
    f.add(" ");
    write_block(&md.body, ind, f);
    assert(f.out@ =~= start + method_text(*md, ind as nat));
}

#[verifier::rlimit(40)]
pub fn write_interface(it: &InterfaceDecl, ind: u32, f: &mut ABSFormatter)
    ensures
        final(f).out@ == old(f).out@ + interface_text(*it, ind as nat),
        final(f).indent == old(f).indent,
{
    let ghost start = f.out@;
    f.add("interface ");
    f.add(it.ident.str.as_str());
    f.add(" ");
    if it.extends.len() > 0 {
        f.add("extends ");
        write_idents(&it.extends, f);
        f.add(" ");
    }
    let ghost head = f.out@;
    let d = deeper_exec(ind);
    f.add("{");
    f.line_at(d);
    let ghost mid = f.out@;
    let ghost parts = it.sigs@.map_values(|m: MethodSig| sig_text(m) + ";"@);
    let mut i: usize = 0;
    while i < it.sigs.len()
        invariant
            i <= it.sigs@.len(),
            parts == it.sigs@.map_values(|m: MethodSig| sig_text(m) + ";"@),
            f.out@ == mid + join(parts.take(i as int), nl(d as nat)),
            f.indent == old(f).indent,
        decreases it.sigs@.len() - i,
    {
        if i > 0 {
            f.line_at(d);
        }
        write_sig(&it.sigs[i], f);
        f.add(";");
        proof {
            lemma_join_step(parts, i as int, nl(d as nat));
        }
        i += 1;
        assert(f.out@ =~= mid + join(parts.take(i as int), nl(d as nat)));
    }
    assert(parts.take(it.sigs@.len() as int) =~= parts);
    f.line_at(ind);
    f.add("}");
    assert(f.out@ =~= head + braced_text(join(parts, nl(d as nat)), ind as nat));
    assert(f.out@ =~= start + interface_text(*it, ind as nat));
}

fn write_fields(fs: &Vec<FieldDecl>, ind: u32, f: &mut ABSFormatter)
    ensures
        final(f).out@ == old(f).out@ + fields_text(fs@, ind as nat),
        final(f).indent == old(f).indent,
{
    let ghost start = f.out@;
    let ghost parts = fs@.map_values(|fd: FieldDecl| field_text(fd) + nl(ind as nat));
    let mut i: usize = 0;
    while i < fs.len()
        invariant
            i <= fs@.len(),
            parts == fs@.map_values(|fd: FieldDecl| field_text(fd) + nl(ind as nat)),
            f.out@ == start + join(parts.take(i as int), Seq::empty()),
            f.indent == old(f).indent,
        decreases fs@.len() - i,
    {
        write_field(&fs[i], f);
        f.line_at(ind);
        proof {
            lemma_join_step(parts, i as int, Seq::empty());
        }
        i += 1;
        assert(f.out@ =~= start + join(parts.take(i as int), Seq::empty()));
    }
    assert(parts.take(fs@.len() as int) =~= parts);
}

fn write_methods(ms: &Vec<MethodDecl>, ind: u32, f: &mut ABSFormatter)
    ensures
        final(f).out@ == old(f).out@ + methods_text(ms@, ind as nat),
        final(f).indent == old(f).indent,
{
    let ghost start = f.out@;
    let ghost sep = nl(ind as nat) + nl(ind as nat);
    let ghost parts = ms@.map_values(|m: MethodDecl| method_text(m, ind as nat));
    let mut j: usize = 0;
    while j < ms.len()
        invariant
            j <= ms@.len(),
            sep == nl(ind as nat) + nl(ind as nat),
            parts == ms@.map_values(|m: MethodDecl| method_text(m, ind as nat)),
            f.out@ == start + join(parts.take(j as int), sep),
            f.indent == old(f).indent,
        decreases ms@.len() - j,
    {
        if j > 0 {
            f.line_at(ind);
            f.line_at(ind);
        }
        write_method(&ms[j], ind, f);
        proof {
            lemma_join_step(parts, j as int, sep);
        }
        j += 1;
        assert(f.out@ =~= start + join(parts.take(j as int), sep));
    }
    assert(parts.take(ms@.len() as int) =~= parts);
}

fn write_recover(bs: &Vec<CaseBranch<Stmt>>, ind: u32, f: &mut ABSFormatter)
    ensures
        final(f).out@ == old(f).out@ + recover_text(bs@, ind as nat),
        final(f).indent == old(f).indent,
{
    let ghost start = f.out@;
    if bs.len() > 0 {
        f.add("recover ");
        let d = deeper_exec(ind);
        f.add("{");
        f.line_at(d);
        write_branches(bs, d, f);
        f.line_at(ind);
        f.add("}");
    }
    assert(f.out@ =~= start + recover_text(bs@, ind as nat));
}

/// Writes the inside of a class body at level `ind`.
fn write_class_body(c: &ClassDecl, ind: u32, f: &mut ABSFormatter)
    ensures
        final(f).out@ == old(f).out@ + class_body_text(*c, ind as nat),
        final(f).indent == old(f).indent,
{
    let ghost start = f.out@;
    write_fields(&c.fields, ind, f);
    let ghost a = f.out@;
    match &c.init {
        Some(b) => {
            write_block(b, ind, f);
            f.line_at(ind);
        },
        None => {},
    }
    assert(f.out@ =~= a + init_text(c.init, ind as nat));
    write_recover(&c.recover, ind, f);
    write_methods(&c.methods, ind, f);
    assert(f.out@ =~= start + class_body_text(*c, ind as nat));
}

fn write_class_head(c: &ClassDecl, f: &mut ABSFormatter)
    ensures
        final(f).out@ == old(f).out@ + class_head_text(*c),
        final(f).indent == old(f).indent,
{
    let ghost start = f.out@;
    write_annos_prefix(&c.annotations, f);
    f.add("class ");
    f.add(c.ident.str.as_str());
    let ghost a = f.out@;
    if c.params.len() > 0 {
        f.add("(");
        write_params(&c.params, f);
        f.add(")");
    }
    let ghost b = f.out@;
    if c.implements.len() > 0 {
        f.add(" implements ");
        write_idents(&c.implements, f);
    }
    assert(f.out@ =~= start + class_head_text(*c));
}

pub fn write_class(c: &ClassDecl, ind: u32, f: &mut ABSFormatter)
    ensures
        final(f).out@ == old(f).out@ + class_text(*c, ind as nat),
        final(f).indent == old(f).indent,
{
    let ghost start = f.out@;
    write_class_head(c, f);
    f.add(" ");
    let d = deeper_exec(ind);
    f.add("{");
    f.line_at(d);
    write_class_body(c, d, f);
    f.line_at(ind);
    f.add("}");
    assert(f.out@ =~= start + class_text(*c, ind as nat));
}

pub fn write_constr(c: &DataConstr, f: &mut ABSFormatter)
    ensures
        final(f).out@ == old(f).out@ + constr_text(*c),
        final(f).indent == old(f).indent,
{
    let ghost start = f.out@;
    f.add(c.ident.str.as_str());
    if c.params.len() > 0 {
        f.add("(");
        let ghost mid = f.out@;
        let ghost parts = c.params@.map_values(|p: DataConstrParam| cparam_text(p));
        let mut i: usize = 0;
        while i < c.params.len()
            invariant
                i <= c.params@.len(),
                parts == c.params@.map_values(|p: DataConstrParam| cparam_text(p)),
                f.out@ == mid + join(parts.take(i as int), ", "@),
                f.indent == old(f).indent,
            decreases c.params@.len() - i,
        {
            if i > 0 {
                f.add(", ");
            }
            let ghost before = f.out@;
            write_ty(&c.params[i].ty, f);
            match &c.params[i].ident {
                Some(x) => {
                    f.add(" ");
                    f.add(x.str.as_str());
                },
                None => {},
            }
            proof {
                lemma_join_step(parts, i as int, ", "@);
            }
            i += 1;
            assert(f.out@ =~= mid + join(parts.take(i as int), ", "@));
        }
        assert(parts.take(c.params@.len() as int) =~= parts);
        f.add(")");
    }
    assert(f.out@ =~= start + constr_text(*c));
}

pub fn write_datatype(d: &DataTypeDecl, f: &mut ABSFormatter)
    ensures
        final(f).out@ == old(f).out@ + datatype_text(*d),
        final(f).indent == old(f).indent,
{
    let ghost start = f.out@;
    f.add("data ");
    f.add(d.ident.str.as_str());
    if d.params.len() > 0 {
        f.add("<");
        write_idents(&d.params, f);
        f.add(">");
    }
    f.add(" = ");
    let ghost mid = f.out@;
    let ghost parts = d.constr@.map_values(|c: DataConstr| constr_text(c));
    let mut i: usize = 0;
    while i < d.constr.len()
        invariant
            i <= d.constr@.len(),
            parts == d.constr@.map_values(|c: DataConstr| constr_text(c)),
            f.out@ == mid + join(parts.take(i as int), " | "@),
            f.indent == old(f).indent,
        decreases d.constr@.len() - i,
    {
        if i > 0 {
            f.add(" | ");
        }
        write_constr(&d.constr[i], f);
        proof {
            lemma_join_step(parts, i as int, " | "@);
        }
        i += 1;
        assert(f.out@ =~= mid + join(parts.take(i as int), " | "@));
    }
    assert(parts.take(d.constr@.len() as int) =~= parts);
    f.add(";");
    assert(f.out@ =~= start + datatype_text(*d));
}

pub fn write_item(it: &ModuleItem, ind: u32, f: &mut ABSFormatter)
    ensures
        final(f).out@ == old(f).out@ + item_text(*it, ind as nat),
        final(f).indent == old(f).indent,
{
    match it {
        ModuleItem::DataTypeDecl(d) => write_datatype(d, f),
        ModuleItem::InterfaceDecl(i) => write_interface(i, ind, f),
        ModuleItem::ClassDecl(c) => write_class(c, ind, f),
        ModuleItem::MainBlock(b) => write_block(b, ind, f),
    }
}

pub fn write_module(m: &Module, f: &mut ABSFormatter)
    ensures
        final(f).out@ == old(f).out@ + module_text(*m),
        final(f).indent == old(f).indent,
{
    let ghost start = f.out@;
    f.add("module ");
    f.add(m.name.str.as_str());
    f.add(";");
    f.line_at(0);
    f.line_at(0);
    let ghost mid = f.out@;
    let ghost parts = m.children@.map_values(|it: ModuleItem| item_text(it, 0) + nl(0) + nl(0));
    let mut i: usize = 0;
    while i < m.children.len()
        invariant
            i <= m.children@.len(),
            parts == m.children@.map_values(|it: ModuleItem| item_text(it, 0) + nl(0) + nl(0)),
            f.out@ == mid + join(parts.take(i as int), Seq::empty()),
            f.indent == old(f).indent,
        decreases m.children@.len() - i,
    {
        write_item(&m.children[i], 0, f);
        f.line_at(0);
        f.line_at(0);
        proof {
            lemma_join_step(parts, i as int, Seq::empty());
        }
        i += 1;
        assert(f.out@ =~= mid + join(parts.take(i as int), Seq::empty()));
    }
    assert(parts.take(m.children@.len() as int) =~= parts);
    assert(f.out@ =~= start + module_text(*m));
}

impl Module {
    /// The module's source text.
    pub fn to_text(&self) -> (r: String)
        ensures
            r@ == module_text(*self),
    {
        let mut f = ABSFormatter::new();
        write_module(self, &mut f);
        f.abs_code()
    }
}

impl Stmt {
    /// The statement's source text at the top indentation level.
    pub fn to_text(&self) -> (r: String)
        ensures
            r@ == stmt_text(*self, 0),
    {
        let mut f = ABSFormatter::new();
        write_stmt(self, 0, &mut f);
        f.abs_code()
    }
}

impl Block {
    /// The block's source text at the top indentation level.
    pub fn to_text(&self) -> (r: String)
        ensures
            r@ == block_text(*self, 0),
    {
        let mut f = ABSFormatter::new();
        write_block(self, 0, &mut f);
        f.abs_code()
    }
}

impl PureExpr {
    /// The expression's source text.
    pub fn to_text(&self) -> (r: String)
        ensures
            r@ == pure_text(*self),
    {
        let mut f = ABSFormatter::new();
        write_pure(self, &mut f);
        f.abs_code()
    }
}

impl Type {
    /// The type's source text.
    pub fn to_text(&self) -> (r: String)
        ensures
            r@ == ty_text(*self),
    {
        let mut f = ABSFormatter::new();
        write_ty(self, &mut f);
        f.abs_code()
    }
}


/// Nodes that print themselves at the formatter's indentation.
pub trait DisplayABS {
    fn to_abs(&self, f: &mut ABSFormatter);
}

impl DisplayABS for Module {
    fn to_abs(&self, f: &mut ABSFormatter) {
        write_module(self, f)
    }
}

impl DisplayABS for ModuleItem {
    fn to_abs(&self, f: &mut ABSFormatter) {
        let ind = f.indent;
        write_item(self, ind, f)
    }
}

impl DisplayABS for InterfaceDecl {
    fn to_abs(&self, f: &mut ABSFormatter) {
        let ind = f.indent;
        write_interface(self, ind, f)
    }
}

impl DisplayABS for ClassDecl {
    fn to_abs(&self, f: &mut ABSFormatter) {
        let ind = f.indent;
        write_class(self, ind, f)
    }
}

impl DisplayABS for DataTypeDecl {
    fn to_abs(&self, f: &mut ABSFormatter) {
        write_datatype(self, f)
    }
}

impl DisplayABS for MethodSig {
    fn to_abs(&self, f: &mut ABSFormatter) {
        write_sig(self, f)
    }
}

impl DisplayABS for MethodDecl {
    fn to_abs(&self, f: &mut ABSFormatter) {
        let ind = f.indent;
        write_method(self, ind, f)
    }
}

impl DisplayABS for Param {
    fn to_abs(&self, f: &mut ABSFormatter) {
        write_param(self, f)
    }
}

impl DisplayABS for FieldDecl {
    fn to_abs(&self, f: &mut ABSFormatter) {
        write_field(self, f)
    }
}

impl DisplayABS for Stmt {
    fn to_abs(&self, f: &mut ABSFormatter) {
        let ind = f.indent;
        write_stmt(self, ind, f)
    }
}

impl DisplayABS for Block {
    fn to_abs(&self, f: &mut ABSFormatter) {
        let ind = f.indent;
        write_block(self, ind, f)
    }
}

impl DisplayABS for Expr {
    fn to_abs(&self, f: &mut ABSFormatter) {
        write_expr(self, f)
    }
}

impl DisplayABS for PureExpr {
    fn to_abs(&self, f: &mut ABSFormatter) {
        write_pure(self, f)
    }
}

impl DisplayABS for EffExpr {
    fn to_abs(&self, f: &mut ABSFormatter) {
        write_eff(self, f)
    }
}

impl DisplayABS for Guard {
    fn to_abs(&self, f: &mut ABSFormatter) {
        write_guard(self, f)
    }
}

impl DisplayABS for Annotation {
    fn to_abs(&self, f: &mut ABSFormatter) {
        write_anno(self, f)
    }
}

impl DisplayABS for Type {
    fn to_abs(&self, f: &mut ABSFormatter) {
        write_ty(self, f)
    }
}

impl DisplayABS for Ident {
    fn to_abs(&self, f: &mut ABSFormatter) {
        f.add(self.str.as_str())
    }
}

} // verus!

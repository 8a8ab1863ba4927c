//! Builders and factories for syntax nodes, so that callers name each part
//! instead of relying on field order.
use vstd::prelude::*;
use vstd::string::*;
use crate::generator::Target;
use crate::ast::{
    Annotation, Annotations, AssignStmt, BinaryExpr, BinaryOp, Block, CaseBranch, ClassDecl,
    DataConstr, DataConstrExpr, DataConstrParam, DataTypeDecl, Expr, FieldDecl, Ident, IdentExpr,
    InterfaceDecl, Literal, MethodDecl, MethodSig, Module, ModuleItem, NewExpr, Param, PureExpr,
    ReturnStmt, Stmt, Type, TypedAnnotation, UntypedAnnotation, VarDeclStmt, OperatorExpr,
};

verus! {

/// An identifier with the given text.
pub fn ident(s: &str) -> (r: Ident)
    ensures
        r.str@ == s@,
{
    Ident { str: String::from_str(s) }
}

// ---- types ----

/// A type without arguments.
pub fn simple_ty(name: &str) -> (r: Type)
    ensures
        r.ident.str@ == name@,
        r.args@.len() == 0,
{
    Type { ident: ident(name), args: Vec::new() }
}

pub fn create_int() -> (r: Type)
    ensures
        r.ident.str@ == "Int"@,
        r.args@.len() == 0,
{
    simple_ty("Int")
}

pub fn create_bool() -> (r: Type)
    ensures
        r.ident.str@ == "Bool"@,
        r.args@.len() == 0,
{
    simple_ty("Bool")
}

pub fn create_unit() -> (r: Type)
    ensures
        r.ident.str@ == "Unit"@,
        r.args@.len() == 0,
{
    simple_ty("Unit")
}

pub fn create_i() -> (r: Type)
    ensures
        r.ident.str@ == "I"@,
        r.args@.len() == 0,
{
    simple_ty("I")
}

pub fn create_j() -> (r: Type)
    ensures
        r.ident.str@ == "J"@,
        r.args@.len() == 0,
{
    simple_ty("J")
}

/// `Fut<payload>`
pub fn create_fut(payload: Type) -> (r: Type)
    ensures
        r.ident.str@ == "Fut"@,
        r.args@ == seq![payload],
{
    let mut args: Vec<Type> = Vec::new();
    args.push(payload);
    Type { ident: ident("Fut"), args }
}

// ---- expressions ----

/// A literal with the given source text.
pub fn create_lit(s: &str) -> (r: Literal)
    ensures
        r.s@ == s@,
{
    Literal { s: String::from_str(s) }
}

/// A use of the variable `v`.
pub fn create_var_use(v: &str) -> (r: IdentExpr)
    ensures
        r.ident.str@ == v@,
{
    IdentExpr { ident: ident(v) }
}

pub fn create_null() -> (r: PureExpr)
    ensures
        r is Null,
{
    PureExpr::Null
}

pub fn create_bin_expr(op: BinaryOp, left: PureExpr, right: PureExpr) -> (r: BinaryExpr)
    ensures
        r.op == op,
        *r.left == left,
        *r.right == right,
{
    BinaryExpr { op, left: Box::new(left), right: Box::new(right) }
}

/// `left != right`
pub fn create_ne_expr(left: PureExpr, right: PureExpr) -> (r: BinaryExpr)
    ensures
        r.op == BinaryOp::Ne,
        *r.left == left,
        *r.right == right,
{
    create_bin_expr(BinaryOp::Ne, left, right)
}

/// A data constructor without arguments.
pub fn create_data_constr(name: &str) -> (r: DataConstrExpr)
    ensures
        r.ident.str@ == name@,
        r.args@.len() == 0,
{
    DataConstrExpr { ident: ident(name), args: Vec::new() }
}

pub fn create_data_constr_args(name: &str, args: Vec<PureExpr>) -> (r: DataConstrExpr)
    ensures
        r.ident.str@ == name@,
        r.args == args,
{
    DataConstrExpr { ident: ident(name), args }
}

/// Builds `new [local] T(args)`.
pub struct NewExprBuilder {
    pub local: bool,
    pub ty: Ident,
    pub args: Vec<PureExpr>,
}

impl NewExprBuilder {
    pub fn new(local: bool, ty: &str) -> (r: Self)
        ensures
            r.local == local,
            r.ty.str@ == ty@,
            r.args@.len() == 0,
    {
        NewExprBuilder { local, ty: ident(ty), args: Vec::new() }
    }

    pub fn add_arg(&mut self, arg: PureExpr)
        ensures
            final(self).args@ == old(self).args@.push(arg),
            final(self).local == old(self).local,
            final(self).ty == old(self).ty,
    {
        self.args.push(arg)
    }

    pub fn with_args(self, arg: PureExpr) -> (r: Self)
        ensures
            r.args@ == self.args@.push(arg),
            r.local == self.local,
            r.ty == self.ty,
    {
        let mut b = self;
        b.add_arg(arg);
        b
    }

    pub fn complete(self) -> (r: NewExpr)
        ensures
            r.local == self.local,
            r.ty == self.ty,
            r.args == self.args,
    {
        NewExpr { local: self.local, ty: self.ty, args: self.args }
    }
}

pub fn start_new_expr(local: bool, ty: &str) -> (r: NewExprBuilder)
    ensures
        r.local == local,
        r.ty.str@ == ty@,
        r.args@.len() == 0,
{
    NewExprBuilder::new(local, ty)
}

// ---- statements ----

/// Builds a block statement by statement.
pub struct BlockBuilder {
    pub stmts: Vec<Stmt>,
}

impl BlockBuilder {
    pub fn add_stmt(&mut self, s: Stmt)
        ensures
            final(self).stmts@ == old(self).stmts@.push(s),
    {
        self.stmts.push(s)
    }

    pub fn with_stmt(self, s: Stmt) -> (r: Self)
        ensures
            r.stmts@ == self.stmts@.push(s),
    {
        let mut b = self;
        b.add_stmt(s);
        b
    }

    pub fn complete(self) -> (r: Block)
        ensures
            r.stmts == self.stmts,
    {
        Block { stmts: self.stmts }
    }
}

pub fn start_block() -> (r: BlockBuilder)
    ensures
        r.stmts@.len() == 0,
{
    BlockBuilder { stmts: Vec::new() }
}

/// `return e;`
pub fn create_ret_stmt(e: Expr) -> (r: ReturnStmt)
    ensures
        r.expr == e,
{
    ReturnStmt { expr: e }
}

/// `[annotations] T name = init;`
pub fn create_var_decl_init(ty: Type, name: &str, init: Expr, annotations: Annotations) -> (r:
    VarDeclStmt)
    ensures
        r.ty == ty,
        r.ident.str@ == name@,
        r.init == Some(init),
        r.annotations == annotations,
{
    VarDeclStmt { annotations, ty, ident: ident(name), init: Some(init) }
}

/// `name = e;`
pub fn create_assign(name: &str, e: Expr) -> (r: AssignStmt)
    ensures
        !r.this,
        r.ident.str@ == name@,
        r.expr == e,
{
    AssignStmt { this: false, ident: ident(name), expr: e }
}

// ---- declarations ----

/// Builds a module from its items, in order.
pub struct ModuleBuilder {
    pub name: Ident,
    pub children: Vec<ModuleItem>,
}

impl ModuleBuilder {
    pub fn new(name: &str) -> (r: Self)
        ensures
            r.name.str@ == name@,
            r.children@.len() == 0,
    {
        ModuleBuilder { name: ident(name), children: Vec::new() }
    }

    pub fn add_child(&mut self, child: ModuleItem)
        ensures
            final(self).children@ == old(self).children@.push(child),
            final(self).name == old(self).name,
    {
        self.children.push(child);
    }

    pub fn with_child(self, child: ModuleItem) -> (r: Self)
        ensures
            r.children@ == self.children@.push(child),
            r.name == self.name,
    {
        let mut b = self;
        b.add_child(child);
        b
    }

    pub fn complete(self) -> (r: Module)
        ensures
            r.name == self.name,
            r.children == self.children,
    {
        Module { name: self.name, children: self.children }
    }
}

pub fn start_module(name: &str) -> (r: ModuleBuilder)
    ensures
        r.name.str@ == name@,
        r.children@.len() == 0,
{
    ModuleBuilder::new(name)
}

/// Builds an interface declaration.
pub struct InterfaceBuilder {
    pub ident: Ident,
    pub extends: Vec<Ident>,
    pub sigs: Vec<MethodSig>,
}

impl InterfaceBuilder {
    pub fn new(name: &str) -> (r: Self)
        ensures
            r.ident.str@ == name@,
            r.extends@.len() == 0,
            r.sigs@.len() == 0,
    {
        InterfaceBuilder { ident: ident(name), extends: Vec::new(), sigs: Vec::new() }
    }

    pub fn add_extends(&mut self, e: &str)
        ensures
            final(self).extends@.len() == old(self).extends@.len() + 1,
            final(self).extends@.drop_last() == old(self).extends@,
            final(self).extends@.last().str@ == e@,
            final(self).ident == old(self).ident,
            final(self).sigs == old(self).sigs,
    {
        self.extends.push(ident(e))
    }

    pub fn with_extends(self, e: &str) -> (r: Self)
        ensures
            r.extends@.len() == self.extends@.len() + 1,
            r.extends@.drop_last() == self.extends@,
            r.extends@.last().str@ == e@,
            r.ident == self.ident,
            r.sigs == self.sigs,
    {
        let mut b = self;
        b.add_extends(e);
        b
    }

    pub fn add_sig(&mut self, sig: MethodSig)
        ensures
            final(self).sigs@ == old(self).sigs@.push(sig),
            final(self).ident == old(self).ident,
            final(self).extends == old(self).extends,
    {
        self.sigs.push(sig)
    }

    pub fn with_sig(self, sig: MethodSig) -> (r: Self)
        ensures
            r.sigs@ == self.sigs@.push(sig),
            r.ident == self.ident,
            r.extends == self.extends,
    {
        let mut b = self;
        b.add_sig(sig);
        b
    }

    pub fn complete(self) -> (r: InterfaceDecl)
        ensures
            r.ident == self.ident,
            r.extends == self.extends,
            r.sigs == self.sigs,
    {
        InterfaceDecl { ident: self.ident, extends: self.extends, sigs: self.sigs }
    }
}

pub fn start_interface_decl(name: &str) -> (r: InterfaceBuilder)
    ensures
        r.ident.str@ == name@,
        r.extends@.len() == 0,
        r.sigs@.len() == 0,
{
    InterfaceBuilder::new(name)
}

/// Builds an algebraic data type declaration.
pub struct DataTypeBuilder {
    pub ident: Ident,
    pub params: Vec<Ident>,
    pub constr: Vec<DataConstr>,
}

impl DataTypeBuilder {
    pub fn new(name: &str) -> (r: Self)
        ensures
            r.ident.str@ == name@,
            r.params@.len() == 0,
            r.constr@.len() == 0,
    {
        DataTypeBuilder { ident: ident(name), params: Vec::new(), constr: Vec::new() }
    }

    pub fn add_param(&mut self, p: &str)
        ensures
            final(self).params@.len() == old(self).params@.len() + 1,
            final(self).params@.drop_last() == old(self).params@,
            final(self).params@.last().str@ == p@,
            final(self).ident == old(self).ident,
            final(self).constr == old(self).constr,
    {
        self.params.push(ident(p));
    }

    pub fn add_constr(&mut self, c: DataConstr)
        ensures
            final(self).constr@ == old(self).constr@.push(c),
            final(self).ident == old(self).ident,
            final(self).params == old(self).params,
    {
        self.constr.push(c)
    }

    pub fn with_param(self, p: &str) -> (r: Self)
        ensures
            r.params@.len() == self.params@.len() + 1,
            r.params@.drop_last() == self.params@,
            r.params@.last().str@ == p@,
            r.ident == self.ident,
            r.constr == self.constr,
    {
        let mut b = self;
        b.add_param(p);
        b
    }

    pub fn with_const(self, c: DataConstr) -> (r: Self)
        ensures
            r.constr@ == self.constr@.push(c),
            r.ident == self.ident,
            r.params == self.params,
    {
        let mut b = self;
        b.add_constr(c);
        b
    }

    pub fn complete(self) -> (r: DataTypeDecl)
        ensures
            r.ident == self.ident,
            r.params == self.params,
            r.constr == self.constr,
    {
        DataTypeDecl { ident: self.ident, params: self.params, constr: self.constr }
    }
}

pub fn start_data_type(name: &str) -> (r: DataTypeBuilder)
    ensures
        r.ident.str@ == name@,
        r.params@.len() == 0,
        r.constr@.len() == 0,
{
    DataTypeBuilder::new(name)
}

/// Builds a class declaration.
pub struct ClassDeclBuilder {
    pub annotations: Annotations,
    pub ident: Ident,
    pub params: Vec<Param>,
    pub implements: Vec<Ident>,
    pub fields: Vec<FieldDecl>,
    pub init: Option<Block>,
    pub recover: Vec<CaseBranch<Stmt>>,
    pub methods: Vec<MethodDecl>,
}

impl ClassDeclBuilder {
    pub fn new(name: &str) -> (r: Self)
        ensures
            r.ident.str@ == name@,
            r.annotations.0@.len() == 0,
            r.params@.len() == 0,
            r.implements@.len() == 0,
            r.fields@.len() == 0,
            r.init is None,
            r.recover@.len() == 0,
            r.methods@.len() == 0,
    {
        ClassDeclBuilder {
            annotations: Annotations::default(),
            ident: ident(name),
            params: Vec::new(),
            implements: Vec::new(),
            fields: Vec::new(),
            init: None,
            recover: Vec::new(),
            methods: Vec::new(),
        }
    }

    pub fn add_annotation(&mut self, a: Annotation)
        ensures
            final(self).annotations.0@ == old(self).annotations.0@.push(a),
            final(self).ident == old(self).ident,
            final(self).params == old(self).params,
            final(self).implements == old(self).implements,
            final(self).fields == old(self).fields,
            final(self).init == old(self).init,
            final(self).recover == old(self).recover,
            final(self).methods == old(self).methods,
    {
        self.annotations.push(a)
    }

    pub fn add_param(&mut self, p: Param)
        ensures
            final(self).params@ == old(self).params@.push(p),
            final(self).annotations == old(self).annotations,
            final(self).ident == old(self).ident,
            final(self).implements == old(self).implements,
            final(self).fields == old(self).fields,
            final(self).init == old(self).init,
            final(self).recover == old(self).recover,
            final(self).methods == old(self).methods,
    {
        self.params.push(p);
    }

    pub fn add_implements(&mut self, s: &str)
        ensures
            final(self).implements@.len() == old(self).implements@.len() + 1,
            final(self).implements@.drop_last() == old(self).implements@,
            final(self).implements@.last().str@ == s@,
            final(self).annotations == old(self).annotations,
            final(self).ident == old(self).ident,
            final(self).params == old(self).params,
            final(self).fields == old(self).fields,
            final(self).init == old(self).init,
            final(self).recover == old(self).recover,
            final(self).methods == old(self).methods,
    {
        self.implements.push(ident(s));
    }

    pub fn add_field(&mut self, p: FieldDecl)
        ensures
            final(self).fields@ == old(self).fields@.push(p),
            final(self).annotations == old(self).annotations,
            final(self).ident == old(self).ident,
            final(self).params == old(self).params,
            final(self).implements == old(self).implements,
            final(self).init == old(self).init,
            final(self).recover == old(self).recover,
            final(self).methods == old(self).methods,
    {
        self.fields.push(p);
    }

    pub fn add_init(&mut self, i: Block)
        ensures
            final(self).init == Some(i),
            final(self).annotations == old(self).annotations,
            final(self).ident == old(self).ident,
            final(self).params == old(self).params,
            final(self).implements == old(self).implements,
            final(self).fields == old(self).fields,
            final(self).recover == old(self).recover,
            final(self).methods == old(self).methods,
    {
        self.init = Some(i);
    }

    pub fn add_recover(&mut self, p: CaseBranch<Stmt>)
        ensures
            final(self).recover@ == old(self).recover@.push(p),
            final(self).annotations == old(self).annotations,
            final(self).ident == old(self).ident,
            final(self).params == old(self).params,
            final(self).implements == old(self).implements,
            final(self).fields == old(self).fields,
            final(self).init == old(self).init,
            final(self).methods == old(self).methods,
    {
        self.recover.push(p);
    }

    pub fn add_method(&mut self, p: MethodDecl)
        ensures
            final(self).methods@ == old(self).methods@.push(p),
            final(self).annotations == old(self).annotations,
            final(self).ident == old(self).ident,
            final(self).params == old(self).params,
            final(self).implements == old(self).implements,
            final(self).fields == old(self).fields,
            final(self).init == old(self).init,
            final(self).recover == old(self).recover,
    {
        self.methods.push(p);
    }

    pub fn with_annotation(self, a: Annotation) -> (r: Self)
        ensures
            r.annotations.0@ == self.annotations.0@.push(a),
            r.ident == self.ident,
            r.params == self.params,
            r.implements == self.implements,
            r.fields == self.fields,
            r.init == self.init,
            r.recover == self.recover,
            r.methods == self.methods,
    {
        let mut b = self;
        b.add_annotation(a);
        b
    }

    pub fn with_param(self, p: Param) -> (r: Self)
        ensures
            r.params@ == self.params@.push(p),
            r.annotations == self.annotations,
            r.ident == self.ident,
            r.implements == self.implements,
            r.fields == self.fields,
            r.init == self.init,
            r.recover == self.recover,
            r.methods == self.methods,
    {
        let mut b = self;
        b.add_param(p);
        b
    }

    pub fn with_implements(self, s: &str) -> (r: Self)
        ensures
            r.implements@.len() == self.implements@.len() + 1,
            r.implements@.drop_last() == self.implements@,
            r.implements@.last().str@ == s@,
            r.annotations == self.annotations,
            r.ident == self.ident,
            r.params == self.params,
            r.fields == self.fields,
            r.init == self.init,
            r.recover == self.recover,
            r.methods == self.methods,
    {
        let mut b = self;
        b.add_implements(s);
        b
    }

    pub fn with_field(self, p: FieldDecl) -> (r: Self)
        ensures
            r.fields@ == self.fields@.push(p),
            r.annotations == self.annotations,
            r.ident == self.ident,
            r.params == self.params,
            r.implements == self.implements,
            r.init == self.init,
            r.recover == self.recover,
            r.methods == self.methods,
    {
        let mut b = self;
        b.add_field(p);
        b
    }

    pub fn with_init(self, i: Block) -> (r: Self)
        ensures
            r.init == Some(i),
            r.annotations == self.annotations,
            r.ident == self.ident,
            r.params == self.params,
            r.implements == self.implements,
            r.fields == self.fields,
            r.recover == self.recover,
            r.methods == self.methods,
    {
        let mut b = self;
        b.add_init(i);
        b
    }

    pub fn with_recover(self, p: CaseBranch<Stmt>) -> (r: Self)
        ensures
            r.recover@ == self.recover@.push(p),
            r.annotations == self.annotations,
            r.ident == self.ident,
            r.params == self.params,
            r.implements == self.implements,
            r.fields == self.fields,
            r.init == self.init,
            r.methods == self.methods,
    {
        let mut b = self;
        b.add_recover(p);
        b
    }

    pub fn with_method(self, p: MethodDecl) -> (r: Self)
        ensures
            r.methods@ == self.methods@.push(p),
            r.annotations == self.annotations,
            r.ident == self.ident,
            r.params == self.params,
            r.implements == self.implements,
            r.fields == self.fields,
            r.init == self.init,
            r.recover == self.recover,
    {
        let mut b = self;
        b.add_method(p);
        b
    }

    pub fn complete(self) -> (r: ClassDecl)
        ensures
            r.annotations == self.annotations,
            r.ident == self.ident,
            r.params == self.params,
            r.implements == self.implements,
            r.fields == self.fields,
            r.init == self.init,
            r.recover == self.recover,
            r.methods == self.methods,
    {
        ClassDecl {
            annotations: self.annotations,
            ident: self.ident,
            params: self.params,
            implements: self.implements,
            fields: self.fields,
            init: self.init,
            recover: self.recover,
            methods: self.methods,
        }
    }
}

pub fn start_class_decl(name: &str) -> (r: ClassDeclBuilder)
    ensures
        r.ident.str@ == name@,
        r.annotations.0@.len() == 0,
        r.params@.len() == 0,
        r.implements@.len() == 0,
        r.fields@.len() == 0,
        r.init is None,
        r.recover@.len() == 0,
        r.methods@.len() == 0,
{
    ClassDeclBuilder::new(name)
}

/// Builds a data constructor declaration.
pub struct DataConstrBuilder {
    pub ident: Ident,
    pub params: Vec<DataConstrParam>,
}

impl DataConstrBuilder {
    pub fn new(name: &str) -> (r: Self)
        ensures
            r.ident.str@ == name@,
            r.params@.len() == 0,
    {
        DataConstrBuilder { ident: ident(name), params: Vec::new() }
    }

    pub fn add_param(&mut self, p: DataConstrParam)
        ensures
            final(self).params@ == old(self).params@.push(p),
            final(self).ident == old(self).ident,
    {
        self.params.push(p);
    }

    pub fn with_param(self, p: DataConstrParam) -> (r: Self)
        ensures
            r.params@ == self.params@.push(p),
            r.ident == self.ident,
    {
        let mut b = self;
        b.add_param(p);
        b
    }

    pub fn complete(self) -> (r: DataConstr)
        ensures
            r.ident == self.ident,
            r.params == self.params,
    {
        DataConstr { ident: self.ident, params: self.params }
    }
}

pub fn start_data_constr(name: &str) -> (r: DataConstrBuilder)
    ensures
        r.ident.str@ == name@,
        r.params@.len() == 0,
{
    DataConstrBuilder::new(name)
}

/// An unnamed constructor parameter of type `ty`.
pub fn create_data_constr_param(ty: Type) -> (r: DataConstrParam)
    ensures
        r.ty == ty,
        r.ident is None,
{
    DataConstrParam { ty, ident: None }
}

/// Builds a method signature; the return type must be set before `complete`.
pub struct MethodSigBuilder {
    pub annotations: Annotations,
    pub ret: Option<Type>,
    pub ident: Ident,
    pub params: Vec<Param>,
}

impl MethodSigBuilder {
    pub fn new(name: &str) -> (r: Self)
        ensures
            r.ident.str@ == name@,
            r.annotations.0@.len() == 0,
            r.ret is None,
            r.params@.len() == 0,
    {
        MethodSigBuilder {
            annotations: Annotations::default(),
            ret: None,
            ident: ident(name),
            params: Vec::new(),
        }
    }

    pub fn add_annotation(&mut self, a: Annotation)
        ensures
            final(self).annotations.0@ == old(self).annotations.0@.push(a),
            final(self).ret == old(self).ret,
            final(self).ident == old(self).ident,
            final(self).params == old(self).params,
    {
        self.annotations.push(a)
    }

    pub fn add_ret(&mut self, ret: Type)
        ensures
            final(self).ret == Some(ret),
            final(self).annotations == old(self).annotations,
            final(self).ident == old(self).ident,
            final(self).params == old(self).params,
    {
        self.ret = Some(ret)
    }

    pub fn add_param(&mut self, param: Param)
        ensures
            final(self).params@ == old(self).params@.push(param),
            final(self).annotations == old(self).annotations,
            final(self).ret == old(self).ret,
            final(self).ident == old(self).ident,
    {
        self.params.push(param)
    }

    pub fn with_annotation(self, a: Annotation) -> (r: Self)
        ensures
            r.annotations.0@ == self.annotations.0@.push(a),
            r.ret == self.ret,
            r.ident == self.ident,
            r.params == self.params,
    {
        let mut b = self;
        b.add_annotation(a);
        b
    }

    pub fn with_ret(self, ret: Type) -> (r: Self)
        ensures
            r.ret == Some(ret),
            r.annotations == self.annotations,
            r.ident == self.ident,
            r.params == self.params,
    {
        let mut b = self;
        b.add_ret(ret);
        b
    }

    pub fn with_param(self, param: Param) -> (r: Self)
        ensures
            r.params@ == self.params@.push(param),
            r.annotations == self.annotations,
            r.ret == self.ret,
            r.ident == self.ident,
    {
        let mut b = self;
        b.add_param(param);
        b
    }

    pub fn complete(self) -> (r: MethodSig)
        requires
            self.ret is Some,
        ensures
            r.annotations == self.annotations,
            Some(r.ret) == self.ret,
            r.ident == self.ident,
            r.params == self.params,
    {
        let ret = self.ret.unwrap();
        MethodSig { annotations: self.annotations, ret, ident: self.ident, params: self.params }
    }
}

pub fn start_method_sig(name: &str) -> (r: MethodSigBuilder)
    ensures
        r.ident.str@ == name@,
        r.annotations.0@.len() == 0,
        r.ret is None,
        r.params@.len() == 0,
{
    MethodSigBuilder::new(name)
}

/// `[annotations] T name`
pub fn create_param(ty: Type, name: &str, annotations: Annotations) -> (r: Param)
    ensures
        r.ty == ty,
        r.ident.str@ == name@,
        r.annotations == annotations,
{
    Param { annotations, ty, ident: ident(name) }
}

/// A field without an initialiser.
pub fn create_field(ty: Type, name: &str, annotations: Annotations) -> (r: FieldDecl)
    ensures
        r.ty == ty,
        r.ident.str@ == name@,
        r.annotations == annotations,
        r.init is None,
{
    FieldDecl { annotations, ty, ident: ident(name), init: None }
}

/// A field with an initialiser.
pub fn create_field_init(ty: Type, name: &str, init: PureExpr, annotations: Annotations) -> (r:
    FieldDecl)
    ensures
        r.ty == ty,
        r.ident.str@ == name@,
        r.annotations == annotations,
        r.init == Some(init),
{
    FieldDecl { annotations, ty, ident: ident(name), init: Some(init) }
}

pub fn create_method_decl(sig: MethodSig, body: Block) -> (r: MethodDecl)
    ensures
        r.sig == sig,
        r.body == body,
{
    MethodDecl { sig, body }
}

// ---- annotations ----

pub fn empty_annos() -> (r: Annotations)
    ensures
        r.0@.len() == 0,
{
    Annotations::default()
}

/// `[e]`
pub fn create_untyped_anno(e: PureExpr) -> (r: Annotation)
    ensures
        r == Annotation::Untyped(UntypedAnnotation(e)),
{
    Annotation::Untyped(UntypedAnnotation(e))
}

/// `[ty: expr]`
pub fn create_typed_anno(ty: Type, expr: PureExpr) -> (r: Annotation)
    ensures
        r == Annotation::Typed(TypedAnnotation { ty, expr }),
{
    Annotation::Typed(TypedAnnotation { ty, expr })
}


/// An untyped annotation naming a constructor without arguments: `[name]`.
pub open spec fn is_flag_anno(a: Annotation, name: &str) -> bool {
    a matches Annotation::Untyped(u) && u.0 matches PureExpr::DataConstr(d) && d.ident.str@ == name@
        && d.args@.len() == 0
}

/// `[Spec: kind(subject != null)]`
pub open spec fn is_spec_anno(a: Annotation, kind: &str, subject: &str) -> bool {
    &&& a matches Annotation::Typed(t)
    &&& t.ty.ident.str@ == "Spec"@
    &&& t.ty.args@.len() == 0
    &&& t.expr matches PureExpr::DataConstr(d)
    &&& d.ident.str@ == kind@
    &&& d.args@.len() == 1
    &&& d.args@[0] matches PureExpr::Operator(OperatorExpr::Binary(b))
    &&& b.op == BinaryOp::Ne
    &&& *b.left matches PureExpr::Ident(x)
    &&& x.ident.str@ == subject@
    &&& *b.right is Null
}

/// `[Nullable]`
pub fn create_nullable_nullable() -> (r: Annotation)
    ensures
        is_flag_anno(r, "Nullable"),
{
    create_untyped_anno(PureExpr::DataConstr(create_data_constr("Nullable")))
}

/// `[NonNull]`
pub fn create_nullable_non_null() -> (r: Annotation)
    ensures
        is_flag_anno(r, "NonNull"),
{
    create_untyped_anno(PureExpr::DataConstr(create_data_constr("NonNull")))
}

/// `[Spec: kind(subject != null)]`
fn create_spec_anno(kind: &str, subject: &str) -> (r: Annotation)
    ensures
        is_spec_anno(r, kind, subject),
{
    let cond = create_ne_expr(PureExpr::Ident(create_var_use(subject)), create_null());
    let mut args: Vec<PureExpr> = Vec::new();
    args.push(PureExpr::Operator(OperatorExpr::Binary(cond)));
    create_typed_anno(simple_ty("Spec"), PureExpr::DataConstr(create_data_constr_args(kind, args)))
}

/// `[Spec: Requires(var != null)]`
pub fn create_crowbar_non_null_param(var: &str) -> (r: Annotation)
    ensures
        is_spec_anno(r, "Requires", var),
{
    create_spec_anno("Requires", var)
}

/// The annotation saying that a method returns no null: typed under
/// Crowbar, untyped under the nullable extension, none under Location.
pub fn create_non_null_ret_anno(target: Target) -> (r: Option<Annotation>)
    ensures
        target == Target::Crowbar ==> (r matches Some(a) && is_spec_anno(a, "Ensures", "result")),
        target == Target::NullableExtension ==> (r matches Some(a) && is_flag_anno(a, "NonNull")),
        target == Target::Location ==> r is None,
{
    match target {
        Target::Crowbar => Some(create_spec_anno("Ensures", "result")),
        Target::NullableExtension => Some(create_nullable_non_null()),
        Target::Location => None,
    }
}

} // verus!

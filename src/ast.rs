//! Abstract syntax of the target language: types, expressions, statements and
//! declarations. Nodes are plain values; builders live in `gen`.
use vstd::prelude::*;
use vstd::string::*;

verus! {

/// A name in the target language.
pub struct Ident {
    pub str: String,
}

/// A nominal type with its type arguments (`Fut<Int>`).
pub struct Type {
    pub ident: Ident,
    pub args: Vec<Type>,
}

/// The source text of a literal (`42`, `-7`, `True`).
pub struct Literal {
    pub s: String,
}

/// Whether `s` holds the text of `lit`.
pub fn text_is(s: &String, lit: &str) -> (r: bool)
    ensures
        r == (s@ == lit@),
{
    *s == String::from_str(lit)
}

/// A copy of an identifier.
pub fn copy_ident(i: &Ident) -> (r: Ident)
    ensures
        r.str@ == i.str@,
{
    Ident { str: i.str.clone() }
}

/// A copy of a type, with the same names at every level.
pub fn copy_ty(t: &Type) -> (r: Type)
    ensures
        r.ident.str@ == t.ident.str@,
        r.args@.len() == t.args@.len(),
        forall|k: int|
            0 <= k < t.args@.len() ==> #[trigger] r.args@[k].ident.str@ == t.args@[k].ident.str@,
    decreases t,
{
    let mut args: Vec<Type> = Vec::new();
    let mut k: usize = 0;
    while k < t.args.len()
        invariant
            k <= t.args@.len(),
            args@.len() == k,
            forall|j: int| 0 <= j < k ==> #[trigger] args@[j].ident.str@ == t.args@[j].ident.str@,
        decreases t.args@.len() - k,
    {
        proof {
            assert(decreases_to!(t => t.args@[k as int]));
        }
        let a = copy_ty(&t.args[k]);
        args.push(a);
        k += 1;
    }
    Type { ident: copy_ident(&t.ident), args }
}

impl Clone for Ident {
    fn clone(&self) -> Self {
        copy_ident(self)
    }
}

impl Clone for Type {
    fn clone(&self) -> Self {
        copy_ty(self)
    }
}

impl Clone for Literal {
    fn clone(&self) -> Self {
        Literal { s: self.s.clone() }
    }
}

pub open spec fn is_int_spec(t: Type) -> bool {
    t.ident.str@ == "Int"@
}

pub open spec fn is_bool_spec(t: Type) -> bool {
    t.ident.str@ == "Bool"@
}

pub open spec fn is_fut_spec(t: Type) -> bool {
    t.ident.str@ == "Fut"@
}

impl Type {
    pub fn is_bool(&self) -> (r: bool)
        ensures
            r == is_bool_spec(*self),
    {
        text_is(&self.ident.str, "Bool")
    }

    pub fn is_unit(&self) -> (r: bool)
        ensures
            r == (self.ident.str@ == "Unit"@),
    {
        text_is(&self.ident.str, "Unit")
    }

    pub fn is_int(&self) -> (r: bool)
        ensures
            r == is_int_spec(*self),
    {
        text_is(&self.ident.str, "Int")
    }

    pub fn is_fut(&self) -> (r: bool)
        ensures
            r == is_fut_spec(*self),
    {
        text_is(&self.ident.str, "Fut")
    }

    /// Whether values of this type can be written as literals.
    pub fn has_lit(&self) -> (r: bool)
        ensures
            r == (is_int_spec(*self) || is_bool_spec(*self)),
    {
        self.is_int() || self.is_bool()
    }
}

/// Any expression: pure or effectful.
pub enum Expr {
    Pure(PureExpr),
    Eff(EffExpr),
}

/// An expression without side effects.
pub enum PureExpr {
    Ident(IdentExpr),
    ThisIdent(IdentExpr),
    This,
    Null,
    Literal(Literal),
    TemplateString,
    Let(LetExpr),
    DataConstr(DataConstrExpr),
    FnApp(FnAppExpr),
    ParFnApp(ParFnAppExpr),
    When(WhenExpr),
    Case(CaseExpr),
    Operator(OperatorExpr),
    TypeCheck(TypeCheckExpr),
    TypeCast(TypeCastExpr),
}

pub struct IdentExpr {
    pub ident: Ident,
}

/// `let T x = value in inner`
pub struct LetExpr {
    pub ty: Type,
    pub ident: Ident,
    pub value: Box<PureExpr>,
    pub inner: Box<PureExpr>,
}

/// A data constructor applied to its arguments.
pub struct DataConstrExpr {
    pub ident: Ident,
    pub args: Vec<PureExpr>,
}

/// A function applied to its arguments.
pub struct FnAppExpr {
    pub ident: Ident,
    pub args: Vec<PureExpr>,
}

/// A partial function application (no fields yet).
pub struct ParFnAppExpr {}

/// `when c then a else b`
pub struct WhenExpr {
    pub condition: Box<PureExpr>,
    pub then_branch: Box<PureExpr>,
    pub else_branch: Box<PureExpr>,
}

/// `case e { p => x | ... }`
pub struct CaseExpr {
    pub expr: Box<PureExpr>,
    pub branches: Vec<CaseBranch<PureExpr>>,
}

/// `e implements I`
pub struct TypeCheckExpr {
    pub expr: Box<PureExpr>,
    pub ty: Ident,
}

/// `e as I`
pub struct TypeCastExpr {
    pub expr: Box<PureExpr>,
    pub ty: Ident,
}

pub enum OperatorExpr {
    Unary(UnaryExpr),
    Binary(BinaryExpr),
}

pub struct UnaryExpr {
    pub op: UnaryOp,
    pub expr: Box<PureExpr>,
}

#[derive(Clone, Copy, PartialEq, Eq, Structural, Debug)]
pub enum UnaryOp {
    Not,
    Minus,
}

pub struct BinaryExpr {
    pub op: BinaryOp,
    pub left: Box<PureExpr>,
    pub right: Box<PureExpr>,
}

#[derive(Clone, Copy, PartialEq, Eq, Structural, Debug)]
pub enum BinaryOp {
    Or,
    And,
    Eq,
    Ne,
    Lt,
    Le,
    Gt,
    Ge,
    Plus,
    Minus,
    Mult,
    Div,
    Mod,
}

/// An expression that creates objects, calls methods or resolves futures.
pub enum EffExpr {
    New(NewExpr),
    SyncCall(SyncCallExpr),
    AsyncCall(AsyncCallExpr),
    Get(GetExpr),
    Await(AwaitExpr),
}

/// `new [local] T(args)`
pub struct NewExpr {
    pub local: bool,
    pub ty: Ident,
    pub args: Vec<PureExpr>,
}

/// `callee.method(args)`
pub struct SyncCallExpr {
    pub callee: PureExpr,
    pub method: Ident,
    pub args: Vec<PureExpr>,
}

/// `callee!method(args)`
pub struct AsyncCallExpr {
    pub callee: PureExpr,
    pub method: Ident,
    pub args: Vec<PureExpr>,
}

/// `expr.get`
pub struct GetExpr {
    pub expr: PureExpr,
}

/// `await callee!method(args)`
pub struct AwaitExpr {
    pub call: AsyncCallExpr,
}

/// The condition of an `await` statement.
pub enum Guard {
    Claim { this: bool, ident: Ident },
    Expr(PureExpr),
    And(Box<Guard>, Box<Guard>),
    Duration(PureExpr, PureExpr),
}

/// A pattern of a case branch (no forms yet).
pub struct Pattern;

/// `pattern => right`
pub struct CaseBranch<K> {
    pub pattern: Pattern,
    pub right: K,
}

/// A space-separated sequence of annotations.
pub struct Annotations(pub Vec<Annotation>);

impl Annotations {
    pub fn push(&mut self, a: Annotation)
        ensures
            final(self).0@ == old(self).0@.push(a),
    {
        self.0.push(a)
    }
}

impl Default for Annotations {
    fn default() -> (r: Self)
        ensures
            r.0@.len() == 0,
    {
        Annotations(Vec::new())
    }
}

pub enum Annotation {
    Typed(TypedAnnotation),
    Untyped(UntypedAnnotation),
}

/// `[T: expr]`
pub struct TypedAnnotation {
    pub ty: Type,
    pub expr: PureExpr,
}

/// `[expr]`
pub struct UntypedAnnotation(pub PureExpr);

pub enum Stmt {
    Skip,
    VarDecl(VarDeclStmt),
    Assign(AssignStmt),
    Expr(ExprStmt),
    Assert(AssertStmt),
    Await(AwaitStmt),
    Suspend,
    Throw(ThrowStmt),
    Return(ReturnStmt),
    Block(Block),
    If(IfStmt),
    Switch(SwitchStmt),
    While(WhileStmt),
    Foreach(ForeachStmt),
    TryCatchFinally(TryCatchFinallyStmt),
}

/// `[annotations] T x [= init];`
pub struct VarDeclStmt {
    pub annotations: Annotations,
    pub ty: Type,
    pub ident: Ident,
    pub init: Option<Expr>,
}

/// `[this.]x = expr;`
pub struct AssignStmt {
    pub this: bool,
    pub ident: Ident,
    pub expr: Expr,
}

pub struct ExprStmt {
    pub expr: Expr,
}

pub struct AssertStmt {
    pub condition: PureExpr,
}

pub struct AwaitStmt {
    pub guard: Guard,
}

pub struct ReturnStmt {
    pub expr: Expr,
}

pub struct ThrowStmt {
    pub expr: PureExpr,
}

/// `if (condition) then_branch [else else_branch]`
pub struct IfStmt {
    pub condition: PureExpr,
    pub then_branch: Box<Stmt>,
    pub else_branch: Option<Box<Stmt>>,
}

pub struct SwitchStmt {
    pub expr: PureExpr,
    pub branches: Vec<CaseBranch<Stmt>>,
}

/// `{ stmts }`
pub struct Block {
    pub stmts: Vec<Stmt>,
}

pub struct WhileStmt {
    pub condition: PureExpr,
    pub body: Box<Stmt>,
}

pub struct ForeachStmt {
    pub loop_var: Ident,
    pub iter: PureExpr,
    pub body: Box<Stmt>,
}

pub struct TryCatchFinallyStmt {
    pub attempt: Box<Stmt>,
    pub catch_branches: Vec<CaseBranch<Stmt>>,
    pub finally: Option<Box<Stmt>>,
}

/// `module name;` followed by its items.
pub struct Module {
    pub name: Ident,
    pub children: Vec<ModuleItem>,
}

pub enum ModuleItem {
    DataTypeDecl(DataTypeDecl),
    InterfaceDecl(InterfaceDecl),
    ClassDecl(ClassDecl),
    MainBlock(Block),
}

/// `data Name<params> = C1(..) | C2(..);`
pub struct DataTypeDecl {
    pub ident: Ident,
    pub params: Vec<Ident>,
    pub constr: Vec<DataConstr>,
}

pub struct DataConstr {
    pub ident: Ident,
    pub params: Vec<DataConstrParam>,
}

/// A constructor parameter: a type and an optional selector name.
pub struct DataConstrParam {
    pub ty: Type,
    pub ident: Option<Ident>,
}

pub struct InterfaceDecl {
    pub ident: Ident,
    pub extends: Vec<Ident>,
    pub sigs: Vec<MethodSig>,
}

pub struct ClassDecl {
    pub annotations: Annotations,
    pub ident: Ident,
    pub params: Vec<Param>,
    pub implements: Vec<Ident>,
    pub fields: Vec<FieldDecl>,
    pub init: Option<Block>,
    pub recover: Vec<CaseBranch<Stmt>>,
    pub methods: Vec<MethodDecl>,
}

pub struct MethodSig {
    pub annotations: Annotations,
    pub ret: Type,
    pub ident: Ident,
    pub params: Vec<Param>,
}

pub struct Param {
    pub annotations: Annotations,
    pub ty: Type,
    pub ident: Ident,
}

pub struct FieldDecl {
    pub annotations: Annotations,
    pub ty: Type,
    pub ident: Ident,
    pub init: Option<PureExpr>,
}

pub struct MethodDecl {
    pub sig: MethodSig,
    pub body: Block,
}

} // verus!

use vstd::prelude::*;

verus! {

broadcast use vstd::std_specs::vec::group_vec_axioms;

pub type Program = Vec<Stmt>;

pub type BlockStmt = Vec<Stmt>;

#[derive(PartialEq, Debug)]
pub enum Stmt {
    Let(Ident, Expr, LLVMExpressionType),
    Assignment(Ident, Expr),
    Func {
        name: String,
        distributed: bool,
        params: Vec<Ident>,
        param_types: Vec<LLVMExpressionType>,
        return_type: LLVMExpressionType,
        body: Program,
    },
    Return(Expr),
    Expr(Expr),
    Blank,
}

#[derive(PartialEq, Debug)]
pub enum Expr {
    Ident(Ident),
    Literal(Literal),
    Prefix(Prefix, Box<Expr>),
    Infix(Infix, Box<Expr>, Box<Expr>),
    If { cond: Box<Expr>, consequence: Program, alternative: Option<Program> },
    Call { func: Box<Expr>, args: Vec<Expr> },
}

/// The type that the source text declares for a binding, a parameter or a
/// function's result. `Call` stands for "whatever the initialiser yields".
#[derive(PartialEq, Eq, Clone, Copy, Debug, Structural)]
pub enum LLVMExpressionType {
    Integer,
    Boolean,
    Null,
    Call,
}

#[derive(PartialEq, Eq, Clone, Copy, Debug, Structural)]
pub enum Literal {
    Int(i64),
    Bool(bool),
}

#[derive(PartialEq, Debug, Eq)]
pub struct Ident(pub String);

#[derive(PartialEq, Eq, Clone, Copy, Debug, Structural)]
pub enum Prefix {
    Plus,
    Minus,
    Not,
}

#[derive(PartialEq, Eq, Clone, Copy, Debug, Structural)]
pub enum Infix {
    Plus,
    Minus,
    Equal,
    NotEqual,
}

/// How tightly an operator binds; later variants bind tighter.
#[derive(PartialEq, Eq, PartialOrd, Clone, Copy, Debug, Structural)]
pub enum Precedence {
    Lowest,
    Equals,
    LessGreater,
    Sum,
    Product,
    Prefix,
    Call,
    Index,
}

/// The mathematical value of an [`Expr`].
pub ghost enum ExprView {
    Ident(Seq<char>),
    Literal(Literal),
    Prefix(Prefix, Box<ExprView>),
    Infix(Infix, Box<ExprView>, Box<ExprView>),
    If { cond: Box<ExprView>, consequence: Seq<StmtView>, alternative: Option<Seq<StmtView>> },
    Call { func: Box<ExprView>, args: Seq<ExprView> },
}

/// The mathematical value of a [`Stmt`].
pub ghost enum StmtView {
    Let(Seq<char>, ExprView, LLVMExpressionType),
    Assignment(Seq<char>, ExprView),
    Func {
        name: Seq<char>,
        distributed: bool,
        params: Seq<Seq<char>>,
        param_types: Seq<LLVMExpressionType>,
        return_type: LLVMExpressionType,
        body: Seq<StmtView>,
    },
    Return(ExprView),
    Expr(ExprView),
    Blank,
}

impl Precedence {
    /// The position of a precedence in the binding order.
    pub open spec fn level(self) -> nat {
        match self {
            Precedence::Lowest => 0,
            Precedence::Equals => 1,
            Precedence::LessGreater => 2,
            Precedence::Sum => 3,
            Precedence::Product => 4,
            Precedence::Prefix => 5,
            Precedence::Call => 6,
            Precedence::Index => 7,
        }
    }

    /// The position of a precedence in the binding order.
    pub fn rank(self) -> (r: u8)
        ensures
            r == self.level(),
    {
        match self {
            Precedence::Lowest => 0,
            Precedence::Equals => 1,
            Precedence::LessGreater => 2,
            Precedence::Sum => 3,
            Precedence::Product => 4,
            Precedence::Prefix => 5,
            Precedence::Call => 6,
            Precedence::Index => 7,
        }
    }
}

/// The mathematical value of an expression.
pub open spec fn expr_view(e: &Expr) -> ExprView
    decreases e,
{
    match e {
        Expr::Ident(id) => ExprView::Ident(id.0@),
        Expr::Literal(literal) => ExprView::Literal(*literal),
        Expr::Prefix(prefix, operand) => ExprView::Prefix(*prefix, Box::new(expr_view(operand))),
        Expr::Infix(infix, left, right) => ExprView::Infix(
            *infix,
            Box::new(expr_view(left)),
            Box::new(expr_view(right)),
        ),
        Expr::If { cond, consequence, alternative } => ExprView::If {
            cond: Box::new(expr_view(cond)),
            consequence: program_view(consequence),
            alternative: match alternative {
                Some(a) => Some(program_view(a)),
                None => None,
            },
        },
        Expr::Call { func, args } => ExprView::Call {
            func: Box::new(expr_view(func)),
            args: exprs_view(args),
        },
    }
}

/// The mathematical value of a statement.
pub open spec fn stmt_view(s: &Stmt) -> StmtView
    decreases s,
{
    match s {
        Stmt::Let(id, e, ty) => StmtView::Let(id.0@, expr_view(e), *ty),
        Stmt::Assignment(id, e) => StmtView::Assignment(id.0@, expr_view(e)),
        Stmt::Func { name, distributed, params, param_types, return_type, body } => StmtView::Func {
            name: name@,
            distributed: *distributed,
            params: idents_view(params),
            param_types: param_types@,
            return_type: *return_type,
            body: program_view(body),
        },
        Stmt::Return(e) => StmtView::Return(expr_view(e)),
        Stmt::Expr(e) => StmtView::Expr(expr_view(e)),
        Stmt::Blank => StmtView::Blank,
    }
}

/// The mathematical value of a statement list.
pub open spec fn program_view(p: &Vec<Stmt>) -> Seq<StmtView>
    decreases p,
{
    Seq::new(
        p.len() as nat,
        |i: int|
            if 0 <= i < p.len() {
                stmt_view(&p[i])
            } else {
                StmtView::Blank
            },
    )
}

/// The mathematical value of an expression list.
pub open spec fn exprs_view(p: &Vec<Expr>) -> Seq<ExprView>
    decreases p,
{
    Seq::new(
        p.len() as nat,
        |i: int|
            if 0 <= i < p.len() {
                expr_view(&p[i])
            } else {
                ExprView::Literal(Literal::Int(0))
            },
    )
}

/// The names that a list of identifiers holds.
pub open spec fn idents_view(p: &Vec<Ident>) -> Seq<Seq<char>> {
    Seq::new(p.len() as nat, |i: int| p[i].0@)
}

/// The two statement lists that a parser yields, as mathematical values.
pub open spec fn programs_view(p: &Vec<Program>) -> Seq<Seq<StmtView>> {
    Seq::new(p.len() as nat, |i: int| program_view(&p[i]))
}

impl View for Ident {
    type V = Seq<char>;

    open spec fn view(&self) -> Seq<char> {
        self.0@
    }
}

impl View for Expr {
    type V = ExprView;

    open spec fn view(&self) -> ExprView {
        expr_view(self)
    }
}

impl View for Stmt {
    type V = StmtView;

    open spec fn view(&self) -> StmtView {
        stmt_view(self)
    }
}

impl Clone for Ident {
    fn clone(&self) -> (copy: Self)
        ensures
            copy@ == self@,
    {
        Ident(self.0.clone())
    }
}

/// A copy of a list of identifiers.
pub fn clone_idents(names: &Vec<Ident>) -> (copy: Vec<Ident>)
    ensures
        idents_view(&copy) == idents_view(names),
{
    let mut out: Vec<Ident> = Vec::new();
    let mut i: usize = 0;
    while i < names.len()
        invariant
            i <= names.len(),
            out.len() == i,
            forall|j: int| 0 <= j < i ==> out[j]@ == names[j]@,
        decreases names.len() - i,
    {
        out.push(names[i].clone());
        i += 1;
    }
    assert(idents_view(&out) =~= idents_view(names));
    out
}

/// A copy of a list of declared types.
pub fn clone_types(types: &Vec<LLVMExpressionType>) -> (copy: Vec<LLVMExpressionType>)
    ensures
        copy@ == types@,
{
    let mut out: Vec<LLVMExpressionType> = Vec::new();
    let mut i: usize = 0;
    while i < types.len()
        invariant
            i <= types.len(),
            out.len() == i,
            forall|j: int| 0 <= j < i ==> out[j] == types[j],
        decreases types.len() - i,
    {
        out.push(types[i]);
        i += 1;
    }
    assert(out@ =~= types@);
    out
}

/// A deep copy of a statement list.
#[verifier::loop_isolation(false)]
pub fn clone_program(program: &Vec<Stmt>) -> (copy: Vec<Stmt>)
    ensures
        program_view(&copy) == program_view(program),
    decreases program,
{
    let mut out: Vec<Stmt> = Vec::new();
    let mut i: usize = 0;
    while i < program.len()
        invariant
            i <= program.len(),
            out.len() == i,
            forall|j: int| 0 <= j < i ==> stmt_view(&out[j]) == stmt_view(&program[j]),
        decreases program.len() - i,
    {
        let s = clone_stmt(&program[i]);
        out.push(s);
        i += 1;
    }
    assert(program_view(&out) =~= program_view(program));
    out
}

/// A deep copy of an expression list.
#[verifier::loop_isolation(false)]
pub fn clone_exprs(exprs: &Vec<Expr>) -> (copy: Vec<Expr>)
    ensures
        exprs_view(&copy) == exprs_view(exprs),
    decreases exprs,
{
    let mut out: Vec<Expr> = Vec::new();
    let mut i: usize = 0;
    while i < exprs.len()
        invariant
            i <= exprs.len(),
            out.len() == i,
            forall|j: int| 0 <= j < i ==> expr_view(&out[j]) == expr_view(&exprs[j]),
        decreases exprs.len() - i,
    {
        let e = clone_expr(&exprs[i]);
        out.push(e);
        i += 1;
    }
    assert(exprs_view(&out) =~= exprs_view(exprs));
    out
}

/// A deep copy of an expression.
pub fn clone_expr(e: &Expr) -> (copy: Expr)
    ensures
        copy@ == e@,
    decreases e,
{
    match e {
        Expr::Ident(id) => Expr::Ident(id.clone()),
        Expr::Literal(literal) => Expr::Literal(*literal),
        Expr::Prefix(prefix, operand) => Expr::Prefix(*prefix, Box::new(clone_expr(operand))),
        Expr::Infix(infix, left, right) => Expr::Infix(
            *infix,
            Box::new(clone_expr(left)),
            Box::new(clone_expr(right)),
        ),
        Expr::If { cond, consequence, alternative } => {
            let alt = match alternative {
                Some(a) => Some(clone_program(a)),
                None => None,
            };
            Expr::If {
                cond: Box::new(clone_expr(cond)),
                consequence: clone_program(consequence),
                alternative: alt,
            }
        },
        Expr::Call { func, args } => Expr::Call {
            func: Box::new(clone_expr(func)),
            args: clone_exprs(args),
        },
    }
}

/// A deep copy of a statement.
pub fn clone_stmt(s: &Stmt) -> (copy: Stmt)
    ensures
        copy@ == s@,
    decreases s,
{
    match s {
        Stmt::Let(id, e, ty) => Stmt::Let(id.clone(), clone_expr(e), *ty),
        Stmt::Assignment(id, e) => Stmt::Assignment(id.clone(), clone_expr(e)),
        Stmt::Func { name, distributed, params, param_types, return_type, body } => Stmt::Func {
            name: name.clone(),
            distributed: *distributed,
            params: clone_idents(params),
            param_types: clone_types(param_types),
            return_type: *return_type,
            body: clone_program(body),
        },
        Stmt::Return(e) => Stmt::Return(clone_expr(e)),
        Stmt::Expr(e) => Stmt::Expr(clone_expr(e)),
        Stmt::Blank => Stmt::Blank,
    }
}

impl Clone for Expr {
    fn clone(&self) -> (copy: Self)
        ensures
            copy@ == self@,
    {
        clone_expr(self)
    }
}

impl Clone for Stmt {
    fn clone(&self) -> (copy: Self)
        ensures
            copy@ == self@,
    {
        clone_stmt(self)
    }
}

} // verus!

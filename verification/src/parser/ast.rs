//! The syntax tree of expressions and statements, with its mathematical
//! value.
use vstd::prelude::*;
use crate::parser::types::{Type, TypeView};

verus! {


/// A block: statements in their order.
pub type Block = Vec<Statement>;

/// One name of an import statement, with the name it goes by locally.
#[derive(Debug)]
pub struct ImportIdentifier {
    pub name: String,
    pub alias: String,
}

/// The mathematical value of an [`ImportIdentifier`].
pub struct ImportView {
    pub name: Seq<char>,
    pub alias: Seq<char>,
}

impl View for ImportIdentifier {
    type V = ImportView;

    open spec fn view(&self) -> ImportView {
        ImportView { name: self.name@, alias: self.alias@ }
    }
}

impl DeepView for ImportIdentifier {
    type V = ImportView;

    open spec fn deep_view(&self) -> ImportView {
        self@
    }
}

impl Clone for ImportIdentifier {
    fn clone(&self) -> (r: Self)
        ensures
            r@ == self@,
    {
        ImportIdentifier { name: self.name.clone(), alias: self.alias.clone() }
    }
}

/// A statement of the source language.
#[derive(Debug)]
pub enum Statement {
    Import { path: String, imports: Vec<ImportIdentifier> },
    TypeDef { name: String, typ: Type },
    VarDef { name: String, typ: Option<Type>, expr: Expression },
    If { cond: Expression, body: Vec<Statement>, else_stmt: ElseStatement },
    While { cond: Expression, body: Vec<Statement> },
    Assign { lhs: Expression, rhs: Expression },
    Return(Option<Expression>),
    Break,
    Continue,
    Loop(Vec<Statement>),
    Expr(Expression),
}

/// What follows the body of an `if`.
#[derive(Debug)]
pub enum ElseStatement {
    /// `else if ...`: the statement is an `If`.
    If(Box<Statement>),
    /// `else { ... }`.
    Block(Vec<Statement>),
    /// Nothing.
    Nothing,
}

/// The mathematical value of a [`Statement`].
pub enum StmtView {
    Import { path: Seq<char>, imports: Seq<ImportView> },
    TypeDef { name: Seq<char>, typ: TypeView },
    VarDef { name: Seq<char>, typ: Option<TypeView>, expr: ExprView },
    If { cond: ExprView, body: Seq<StmtView>, else_stmt: ElseView },
    While { cond: ExprView, body: Seq<StmtView> },
    Assign { lhs: ExprView, rhs: ExprView },
    Return(Option<ExprView>),
    Break,
    Continue,
    Loop(Seq<StmtView>),
    Expr(ExprView),
}

/// The mathematical value of an [`ElseStatement`].
pub enum ElseView {
    If(Box<StmtView>),
    Block(Seq<StmtView>),
    Nothing,
}

impl Statement {
    /// The mathematical value of the statement.
    pub open spec fn model(&self) -> StmtView
        decreases self,
    {
        match self {
            Statement::Import { path, imports } => StmtView::Import {
                path: path@,
                imports: imports.deep_view(),
            },
            Statement::TypeDef { name, typ } => StmtView::TypeDef { name: name@, typ: typ@ },
            Statement::VarDef { name, typ, expr } => StmtView::VarDef {
                name: name@,
                typ: typ.deep_view(),
                expr: expr.model(),
            },
            Statement::If { cond, body, else_stmt } => StmtView::If {
                cond: cond.model(),
                body: Seq::new(
                    body@.len(),
                    |i: int|
                        if 0 <= i < body@.len() {
                            body@[i].model()
                        } else {
                            arbitrary()
                        },
                ),
                else_stmt: match else_stmt {
                    ElseStatement::If(inner) => ElseView::If(Box::new(inner.model())),
                    ElseStatement::Block(block) => ElseView::Block(
                        Seq::new(
                    block@.len(),
                    |i: int|
                        if 0 <= i < block@.len() {
                            block@[i].model()
                        } else {
                            arbitrary()
                        },
                ),
                    ),
                    ElseStatement::Nothing => ElseView::Nothing,
                },
            },
            Statement::While { cond, body } => StmtView::While {
                cond: cond.model(),
                body: Seq::new(
                    body@.len(),
                    |i: int|
                        if 0 <= i < body@.len() {
                            body@[i].model()
                        } else {
                            arbitrary()
                        },
                ),
            },
            Statement::Assign { lhs, rhs } => StmtView::Assign {
                lhs: lhs.model(),
                rhs: rhs.model(),
            },
            Statement::Return(expr) => StmtView::Return(
                match expr {
                    Some(e) => Some(e.model()),
                    None => None,
                },
            ),
            Statement::Break => StmtView::Break,
            Statement::Continue => StmtView::Continue,
            Statement::Loop(body) => StmtView::Loop(
                Seq::new(
                    body@.len(),
                    |i: int|
                        if 0 <= i < body@.len() {
                            body@[i].model()
                        } else {
                            arbitrary()
                        },
                ),
            ),
            Statement::Expr(expr) => StmtView::Expr(expr.model()),
        }
    }
}

impl ElseStatement {
    /// The mathematical value of what follows the body of an `if`.
    pub open spec fn model(&self) -> ElseView {
        match self {
            ElseStatement::If(inner) => ElseView::If(Box::new(inner.model())),
            ElseStatement::Block(block) => ElseView::Block(block.deep_view()),
            ElseStatement::Nothing => ElseView::Nothing,
        }
    }
}

impl View for Statement {
    type V = StmtView;

    open spec fn view(&self) -> StmtView {
        self.model()
    }
}

impl DeepView for Statement {
    type V = StmtView;

    open spec fn deep_view(&self) -> StmtView {
        self.model()
    }
}

impl View for ElseStatement {
    type V = ElseView;

    open spec fn view(&self) -> ElseView {
        self.model()
    }
}

impl Statement {
    /// The value of an `if` is made of the values of its parts.
    pub proof fn lemma_if_model(cond: Expression, body: Vec<Statement>, else_stmt: ElseStatement)
        ensures
            (Statement::If { cond, body, else_stmt })@ == (StmtView::If {
                cond: cond@,
                body: body.deep_view(),
                else_stmt: else_stmt@,
            }),
    {
        let whole = (Statement::If { cond, body, else_stmt })@;
        assert(whole->If_body =~= body.deep_view());
        match else_stmt {
            ElseStatement::Block(block) => {
                assert(whole->If_else_stmt->Block_0 =~= block.deep_view());
            },
            _ => {},
        }
    }

    /// The value of a `while` is made of the values of its parts.
    pub proof fn lemma_while_model(cond: Expression, body: Vec<Statement>)
        ensures
            (Statement::While { cond, body })@ == (StmtView::While {
                cond: cond@,
                body: body.deep_view(),
            }),
    {
        assert((Statement::While { cond, body })@->While_body =~= body.deep_view());
    }

    /// The value of a `loop` is made of the values of its statements.
    pub proof fn lemma_loop_model(body: Vec<Statement>)
        ensures
            Statement::Loop(body)@ == StmtView::Loop(body.deep_view()),
    {
        assert(Statement::Loop(body)@->Loop_0 =~= body.deep_view());
    }

    /// A copy of the statement.
    #[verifier::loop_isolation(false)]
    pub fn duplicate(&self) -> (r: Statement)
        ensures
            r@ == self@,
        decreases self,
    {
        match self {
            Statement::Import { path, imports } => {
                let mut out: Vec<ImportIdentifier> = Vec::new();
                let mut i: usize = 0;
                while i < imports.len()
                    invariant
                        i <= imports.len(),
                        out@.len() == i,
                        forall|j: int| 0 <= j < i ==> out@[j]@ == imports@[j]@,
                    decreases imports.len() - i,
                {
                    out.push(imports[i].clone());
                    i += 1;
                }
                assert(out.deep_view() =~= imports.deep_view());
                Statement::Import { path: path.clone(), imports: out }
            },
            Statement::TypeDef { name, typ } => Statement::TypeDef {
                name: name.clone(),
                typ: typ.clone(),
            },
            Statement::VarDef { name, typ, expr } => Statement::VarDef {
                name: name.clone(),
                typ: match typ {
                    Some(t) => Some(t.clone()),
                    None => None,
                },
                expr: expr.duplicate(),
            },
            Statement::If { cond, body, else_stmt } => {
                let cond2 = cond.duplicate();
                let body2 = duplicate_block(body);
                let else2 = match else_stmt {
                    ElseStatement::If(inner) => ElseStatement::If(Box::new(inner.duplicate())),
                    ElseStatement::Block(block) => ElseStatement::Block(duplicate_block(block)),
                    ElseStatement::Nothing => ElseStatement::Nothing,
                };
                proof {
                    Statement::lemma_if_model(cond2, body2, else2);
                    Statement::lemma_if_model(*cond, *body, *else_stmt);
                }
                Statement::If { cond: cond2, body: body2, else_stmt: else2 }
            },
            Statement::While { cond, body } => {
                let cond2 = cond.duplicate();
                let body2 = duplicate_block(body);
                proof {
                    Statement::lemma_while_model(cond2, body2);
                    Statement::lemma_while_model(*cond, *body);
                }
                Statement::While { cond: cond2, body: body2 }
            },
            Statement::Assign { lhs, rhs } => Statement::Assign {
                lhs: lhs.duplicate(),
                rhs: rhs.duplicate(),
            },
            Statement::Return(expr) => Statement::Return(
                match expr {
                    Some(e) => Some(e.duplicate()),
                    None => None,
                },
            ),
            Statement::Break => Statement::Break,
            Statement::Continue => Statement::Continue,
            Statement::Loop(body) => {
                let body2 = duplicate_block(body);
                proof {
                    Statement::lemma_loop_model(body2);
                    Statement::lemma_loop_model(*body);
                }
                Statement::Loop(body2)
            },
            Statement::Expr(expr) => Statement::Expr(expr.duplicate()),
        }
    }
}

/// A copy of a block.
pub fn duplicate_block(block: &Vec<Statement>) -> (r: Vec<Statement>)
    ensures
        r.deep_view() == block.deep_view(),
    decreases block,
{
    let mut out: Vec<Statement> = Vec::new();
    let mut i: usize = 0;
    while i < block.len()
        invariant
            i <= block.len(),
            out@.len() == i,
            forall|j: int| 0 <= j < i ==> out@[j]@ == block@[j]@,
        decreases block.len() - i,
    {
        out.push(block[i].duplicate());
        i += 1;
    }
    assert(out.deep_view() =~= block.deep_view());
    out
}

impl Clone for Statement {
    fn clone(&self) -> (r: Self)
        ensures
            r@ == self@,
    {
        self.duplicate()
    }
}



/// An expression of the source language.
///
/// A float literal carries its decimal text. The fields of a record literal
/// are kept in the order in which they were written; no name occurs twice in
/// one that the parser made.
#[derive(Debug)]
pub enum Expression {
    Int(i64),
    Float(String),
    String(String),
    Char(char),
    Bool(bool),
    StructLiteral(Vec<(String, Expression)>),
    ArrayLiteral(Vec<Expression>),
    FunctionLiteral { args: Vec<(String, Type)>, ret: Type, body: Vec<Statement> },
    TupleLiteral(Vec<Expression>),
    Identifier(String),
    Add(Box<Expression>, Box<Expression>),
    Sub(Box<Expression>, Box<Expression>),
    Mul(Box<Expression>, Box<Expression>),
    Div(Box<Expression>, Box<Expression>),
    Mod(Box<Expression>, Box<Expression>),
    Equal(Box<Expression>, Box<Expression>),
    GreaterEqual(Box<Expression>, Box<Expression>),
    GreaterThan(Box<Expression>, Box<Expression>),
    LessEqual(Box<Expression>, Box<Expression>),
    LessThan(Box<Expression>, Box<Expression>),
    And(Box<Expression>, Box<Expression>),
    Or(Box<Expression>, Box<Expression>),
    Neg(Box<Expression>),
    Not(Box<Expression>),
    Ref(Box<Expression>),
    Deref(Box<Expression>),
    Null,
    Call { expr: Box<Expression>, args: Vec<Expression> },
    Index { expr: Box<Expression>, index: Box<Expression> },
    Dot { expr: Box<Expression>, field: String },
}

/// The mathematical value of an [`Expression`].
pub enum ExprView {
    Int(i64),
    Float(Seq<char>),
    String(Seq<char>),
    Char(char),
    Bool(bool),
    StructLiteral(Seq<(Seq<char>, ExprView)>),
    ArrayLiteral(Seq<ExprView>),
    FunctionLiteral { args: Seq<(Seq<char>, TypeView)>, ret: TypeView, body: Seq<StmtView> },
    TupleLiteral(Seq<ExprView>),
    Identifier(Seq<char>),
    Add(Box<ExprView>, Box<ExprView>),
    Sub(Box<ExprView>, Box<ExprView>),
    Mul(Box<ExprView>, Box<ExprView>),
    Div(Box<ExprView>, Box<ExprView>),
    Mod(Box<ExprView>, Box<ExprView>),
    Equal(Box<ExprView>, Box<ExprView>),
    GreaterEqual(Box<ExprView>, Box<ExprView>),
    GreaterThan(Box<ExprView>, Box<ExprView>),
    LessEqual(Box<ExprView>, Box<ExprView>),
    LessThan(Box<ExprView>, Box<ExprView>),
    And(Box<ExprView>, Box<ExprView>),
    Or(Box<ExprView>, Box<ExprView>),
    Neg(Box<ExprView>),
    Not(Box<ExprView>),
    Ref(Box<ExprView>),
    Deref(Box<ExprView>),
    Null,
    Call { expr: Box<ExprView>, args: Seq<ExprView> },
    Index { expr: Box<ExprView>, index: Box<ExprView> },
    Dot { expr: Box<ExprView>, field: Seq<char> },
}

impl Expression {
    /// The mathematical value of the expression.
    pub open spec fn model(&self) -> ExprView
        decreases self,
    {
        match self {
            Expression::Int(v) => ExprView::Int(*v),
            Expression::Float(s) => ExprView::Float(s@),
            Expression::String(s) => ExprView::String(s@),
            Expression::Char(c) => ExprView::Char(*c),
            Expression::Bool(b) => ExprView::Bool(*b),
            Expression::StructLiteral(fields) => ExprView::StructLiteral(
                Seq::new(
                    fields@.len(),
                    |i: int|
                        if 0 <= i < fields@.len() {
                            (fields@[i].0@, fields@[i].1.model())
                        } else {
                            arbitrary()
                        },
                ),
            ),
            Expression::ArrayLiteral(items) => ExprView::ArrayLiteral(
                Seq::new(
                    items@.len(),
                    |i: int|
                        if 0 <= i < items@.len() {
                            items@[i].model()
                        } else {
                            arbitrary()
                        },
                ),
            ),
            Expression::FunctionLiteral { args, ret, body } => ExprView::FunctionLiteral {
                args: args.deep_view(),
                ret: ret@,
                body: Seq::new(
                    body@.len(),
                    |i: int|
                        if 0 <= i < body@.len() {
                            body@[i].model()
                        } else {
                            arbitrary()
                        },
                ),
            },
            Expression::TupleLiteral(items) => ExprView::TupleLiteral(
                Seq::new(
                    items@.len(),
                    |i: int|
                        if 0 <= i < items@.len() {
                            items@[i].model()
                        } else {
                            arbitrary()
                        },
                ),
            ),
            Expression::Identifier(name) => ExprView::Identifier(name@),
            Expression::Add(lhs, rhs) => ExprView::Add(
                Box::new(lhs.model()),
                Box::new(rhs.model()),
            ),
            Expression::Sub(lhs, rhs) => ExprView::Sub(
                Box::new(lhs.model()),
                Box::new(rhs.model()),
            ),
            Expression::Mul(lhs, rhs) => ExprView::Mul(
                Box::new(lhs.model()),
                Box::new(rhs.model()),
            ),
            Expression::Div(lhs, rhs) => ExprView::Div(
                Box::new(lhs.model()),
                Box::new(rhs.model()),
            ),
            Expression::Mod(lhs, rhs) => ExprView::Mod(
                Box::new(lhs.model()),
                Box::new(rhs.model()),
            ),
            Expression::Equal(lhs, rhs) => ExprView::Equal(
                Box::new(lhs.model()),
                Box::new(rhs.model()),
            ),
            Expression::GreaterEqual(lhs, rhs) => ExprView::GreaterEqual(
                Box::new(lhs.model()),
                Box::new(rhs.model()),
            ),
            Expression::GreaterThan(lhs, rhs) => ExprView::GreaterThan(
                Box::new(lhs.model()),
                Box::new(rhs.model()),
            ),
            Expression::LessEqual(lhs, rhs) => ExprView::LessEqual(
                Box::new(lhs.model()),
                Box::new(rhs.model()),
            ),
            Expression::LessThan(lhs, rhs) => ExprView::LessThan(
                Box::new(lhs.model()),
                Box::new(rhs.model()),
            ),
            Expression::And(lhs, rhs) => ExprView::And(
                Box::new(lhs.model()),
                Box::new(rhs.model()),
            ),
            Expression::Or(lhs, rhs) => ExprView::Or(
                Box::new(lhs.model()),
                Box::new(rhs.model()),
            ),
            Expression::Neg(inner) => ExprView::Neg(Box::new(inner.model())),
            Expression::Not(inner) => ExprView::Not(Box::new(inner.model())),
            Expression::Ref(inner) => ExprView::Ref(Box::new(inner.model())),
            Expression::Deref(inner) => ExprView::Deref(Box::new(inner.model())),
            Expression::Null => ExprView::Null,
            Expression::Call { expr, args } => ExprView::Call {
                expr: Box::new(expr.model()),
                args: Seq::new(
                    args@.len(),
                    |i: int|
                        if 0 <= i < args@.len() {
                            args@[i].model()
                        } else {
                            arbitrary()
                        },
                ),
            },
            Expression::Index { expr, index } => ExprView::Index {
                expr: Box::new(expr.model()),
                index: Box::new(index.model()),
            },
            Expression::Dot { expr, field } => ExprView::Dot {
                expr: Box::new(expr.model()),
                field: field@,
            },
        }
    }

    /// The value of a record literal is made of the values of its fields.
    pub proof fn lemma_struct_model(fields: Vec<(String, Expression)>)
        ensures
            Expression::StructLiteral(fields)@ == ExprView::StructLiteral(fields.deep_view()),
    {
        assert(Expression::StructLiteral(fields)@->StructLiteral_0 =~= fields.deep_view());
    }

    /// The value of an array literal is made of the values of its items.
    pub proof fn lemma_array_model(items: Vec<Expression>)
        ensures
            Expression::ArrayLiteral(items)@ == ExprView::ArrayLiteral(items.deep_view()),
    {
        assert(Expression::ArrayLiteral(items)@->ArrayLiteral_0 =~= items.deep_view());
    }

    /// The value of a tuple literal is made of the values of its items.
    pub proof fn lemma_tuple_model(items: Vec<Expression>)
        ensures
            Expression::TupleLiteral(items)@ == ExprView::TupleLiteral(items.deep_view()),
    {
        assert(Expression::TupleLiteral(items)@->TupleLiteral_0 =~= items.deep_view());
    }

    /// The value of a function literal is made of the values of its parts.
    pub proof fn lemma_function_model(args: Vec<(String, Type)>, ret: Type, body: Vec<Statement>)
        ensures
            (Expression::FunctionLiteral { args, ret, body })@ == (ExprView::FunctionLiteral {
                args: args.deep_view(),
                ret: ret@,
                body: body.deep_view(),
            }),
    {
        assert((Expression::FunctionLiteral { args, ret, body })@->FunctionLiteral_body
            =~= body.deep_view());
    }

    /// The value of a call is made of the values of its parts.
    pub proof fn lemma_call_model(expr: Box<Expression>, args: Vec<Expression>)
        ensures
            (Expression::Call { expr, args })@ == (ExprView::Call {
                expr: Box::new(expr@),
                args: args.deep_view(),
            }),
    {
        assert((Expression::Call { expr, args })@->Call_args =~= args.deep_view());
    }

    /// A copy of the expression.
    #[verifier::loop_isolation(false)]
    pub fn duplicate(&self) -> (r: Expression)
        ensures
            r@ == self@,
        decreases self,
    {
        match self {
            Expression::Int(v) => Expression::Int(*v),
            Expression::Float(s) => Expression::Float(s.clone()),
            Expression::String(s) => Expression::String(s.clone()),
            Expression::Char(c) => Expression::Char(*c),
            Expression::Bool(b) => Expression::Bool(*b),
            Expression::StructLiteral(fields) => {
                let mut out: Vec<(String, Expression)> = Vec::new();
                let mut i: usize = 0;
                while i < fields.len()
                    invariant
                        i <= fields.len(),
                        out@.len() == i,
                        forall|j: int| 0 <= j < i ==> out@[j].deep_view() == fields@[j].deep_view(),
                    decreases fields.len() - i,
                {
                    let name = fields[i].0.clone();
                    let value = fields[i].1.duplicate();
                    out.push((name, value));
                    i += 1;
                }
                proof {
                    Expression::lemma_struct_model(out);
                    Expression::lemma_struct_model(*fields);
                    assert(out.deep_view() =~= fields.deep_view());
                }
                Expression::StructLiteral(out)
            },
            Expression::ArrayLiteral(items) => {
                let out = duplicate_expressions(items);
                proof {
                    Expression::lemma_array_model(out);
                    Expression::lemma_array_model(*items);
                }
                Expression::ArrayLiteral(out)
            },
            Expression::FunctionLiteral { args, ret, body } => {
                let mut args2: Vec<(String, Type)> = Vec::new();
                let mut i: usize = 0;
                while i < args.len()
                    invariant
                        i <= args.len(),
                        args2@.len() == i,
                        forall|j: int| 0 <= j < i ==> args2@[j].deep_view() == args@[j].deep_view(),
                    decreases args.len() - i,
                {
                    let name = args[i].0.clone();
                    let ty = args[i].1.clone();
                    args2.push((name, ty));
                    i += 1;
                }
                let ret2 = ret.clone();
                let body2 = duplicate_block(body);
                proof {
                    Expression::lemma_function_model(args2, ret2, body2);
                    Expression::lemma_function_model(*args, *ret, *body);
                    assert(args2.deep_view() =~= args.deep_view());
                }
                Expression::FunctionLiteral { args: args2, ret: ret2, body: body2 }
            },
            Expression::TupleLiteral(items) => {
                let out = duplicate_expressions(items);
                proof {
                    Expression::lemma_tuple_model(out);
                    Expression::lemma_tuple_model(*items);
                }
                Expression::TupleLiteral(out)
            },
            Expression::Identifier(name) => Expression::Identifier(name.clone()),
            Expression::Add(lhs, rhs) => Expression::Add(
                Box::new(lhs.duplicate()),
                Box::new(rhs.duplicate()),
            ),
            Expression::Sub(lhs, rhs) => Expression::Sub(
                Box::new(lhs.duplicate()),
                Box::new(rhs.duplicate()),
            ),
            Expression::Mul(lhs, rhs) => Expression::Mul(
                Box::new(lhs.duplicate()),
                Box::new(rhs.duplicate()),
            ),
            Expression::Div(lhs, rhs) => Expression::Div(
                Box::new(lhs.duplicate()),
                Box::new(rhs.duplicate()),
            ),
            Expression::Mod(lhs, rhs) => Expression::Mod(
                Box::new(lhs.duplicate()),
                Box::new(rhs.duplicate()),
            ),
            Expression::Equal(lhs, rhs) => Expression::Equal(
                Box::new(lhs.duplicate()),
                Box::new(rhs.duplicate()),
            ),
            Expression::GreaterEqual(lhs, rhs) => Expression::GreaterEqual(
                Box::new(lhs.duplicate()),
                Box::new(rhs.duplicate()),
            ),
            Expression::GreaterThan(lhs, rhs) => Expression::GreaterThan(
                Box::new(lhs.duplicate()),
                Box::new(rhs.duplicate()),
            ),
            Expression::LessEqual(lhs, rhs) => Expression::LessEqual(
                Box::new(lhs.duplicate()),
                Box::new(rhs.duplicate()),
            ),
            Expression::LessThan(lhs, rhs) => Expression::LessThan(
                Box::new(lhs.duplicate()),
                Box::new(rhs.duplicate()),
            ),
            Expression::And(lhs, rhs) => Expression::And(
                Box::new(lhs.duplicate()),
                Box::new(rhs.duplicate()),
            ),
            Expression::Or(lhs, rhs) => Expression::Or(
                Box::new(lhs.duplicate()),
                Box::new(rhs.duplicate()),
            ),
            Expression::Neg(inner) => Expression::Neg(Box::new(inner.duplicate())),
            Expression::Not(inner) => Expression::Not(Box::new(inner.duplicate())),
            Expression::Ref(inner) => Expression::Ref(Box::new(inner.duplicate())),
            Expression::Deref(inner) => Expression::Deref(Box::new(inner.duplicate())),
            Expression::Null => Expression::Null,
            Expression::Call { expr, args } => {
                let expr2 = Box::new(expr.duplicate());
                let args2 = duplicate_expressions(args);
                proof {
                    Expression::lemma_call_model(expr2, args2);
                    Expression::lemma_call_model(*expr, *args);
                }
                Expression::Call { expr: expr2, args: args2 }
            },
            Expression::Index { expr, index } => Expression::Index {
                expr: Box::new(expr.duplicate()),
                index: Box::new(index.duplicate()),
            },
            Expression::Dot { expr, field } => Expression::Dot {
                expr: Box::new(expr.duplicate()),
                field: field.clone(),
            },
        }
    }
}

/// A copy of a list of expressions.
pub fn duplicate_expressions(items: &Vec<Expression>) -> (r: Vec<Expression>)
    ensures
        r.deep_view() == items.deep_view(),
    decreases items,
{
    let mut out: Vec<Expression> = Vec::new();
    let mut i: usize = 0;
    while i < items.len()
        invariant
            i <= items.len(),
            out@.len() == i,
            forall|j: int| 0 <= j < i ==> out@[j]@ == items@[j]@,
        decreases items.len() - i,
    {
        out.push(items[i].duplicate());
        i += 1;
    }
    assert(out.deep_view() =~= items.deep_view());
    out
}

impl View for Expression {
    type V = ExprView;

    open spec fn view(&self) -> ExprView {
        self.model()
    }
}

impl DeepView for Expression {
    type V = ExprView;

    open spec fn deep_view(&self) -> ExprView {
        self.model()
    }
}

impl Clone for Expression {
    fn clone(&self) -> (r: Self)
        ensures
            r@ == self@,
    {
        self.duplicate()
    }
}


} // verus!

//! The data that the stages of the interpreter share: spans, values and
//! their mathematical models.

use vstd::prelude::*;

verus! {

/// A half-open range of byte offsets into the source text.
#[derive(Clone, Copy, Debug, PartialEq, Eq, Structural)]
pub struct Span {
    pub start: usize,
    pub end: usize,
}

impl Span {
    pub fn new(start: usize, end: usize) -> (span: Span)
        ensures
            span == (Span { start, end }),
    {
        Span { start, end }
    }
}

/// Something together with the place in the source that it came from.
pub type Spanned<T> = (T, Span);

/// A run-time value. Two values are `==` where the language's equality
/// holds between them (see [`crate::numbers::value_eq`]).
#[derive(Debug)]
pub enum Value {
    Null,
    Bool(bool),
    /// A binary64 number, held as its bit pattern.
    Num(u64),
    Str(String),
    List(Vec<Value>),
    /// A reference to a declared function, by name.
    Func(String),
}

/// The mathematical model of a [`Value`].
pub enum ValueModel {
    Null,
    Bool(bool),
    Num(u64),
    Str(Seq<char>),
    List(Seq<ValueModel>),
    Func(Seq<char>),
}

/// The model of a value.
pub open spec fn value_model(v: Value) -> ValueModel
    decreases v, 0nat,
{
    match v {
        Value::Null => ValueModel::Null,
        Value::Bool(b) => ValueModel::Bool(b),
        Value::Num(n) => ValueModel::Num(n),
        Value::Str(s) => ValueModel::Str(s@),
        Value::List(items) => ValueModel::List(values_model_upto(items@, items@.len())),
        Value::Func(name) => ValueModel::Func(name@),
    }
}

/// The models of the first `k` of `items`, in order.
pub open spec fn values_model_upto(items: Seq<Value>, k: nat) -> Seq<ValueModel>
    decreases items, k,
{
    if k == 0 || k > items.len() {
        Seq::empty()
    } else {
        values_model_upto(items, (k - 1) as nat).push(value_model(items[k - 1]))
    }
}

/// The models of `items`, in order.
pub open spec fn values_model(items: Seq<Value>) -> Seq<ValueModel> {
    values_model_upto(items, items.len())
}

impl View for Value {
    type V = ValueModel;

    open spec fn view(&self) -> ValueModel {
        value_model(*self)
    }
}

/// The first `k` models are the models of the first `k` items.
pub proof fn values_model_upto_index(items: Seq<Value>, k: nat)
    requires
        k <= items.len(),
    ensures
        values_model_upto(items, k).len() == k,
        forall|i: int| 0 <= i < k ==> values_model_upto(items, k)[i] == (#[trigger] items[i])@,
    decreases k,
{
    if k > 0 {
        values_model_upto_index(items, (k - 1) as nat);
    }
}

/// The model of a run of values holds the model of each, in order.
pub proof fn values_model_index(items: Seq<Value>)
    ensures
        values_model(items).len() == items.len(),
        forall|i: int|
            #![trigger values_model(items)[i]]
            #![trigger items[i]]
            0 <= i < items.len() ==> values_model(items)[i] == items[i]@,
{
    values_model_upto_index(items, items.len());
}

/// The model of a list value holds the models of its items, in order.
pub proof fn list_model(v: Value)
    requires
        v is List,
    ensures
        v@ == ValueModel::List(values_model(v->List_0@)),
        v@->List_0.len() == v->List_0@.len(),
        forall|i: int|
            #![trigger v@->List_0[i]]
            #![trigger v->List_0@[i]]
            0 <= i < v->List_0@.len() ==> v@->List_0[i] == v->List_0@[i]@,
{
    values_model_index(v->List_0@);
}

impl Clone for Value {
    fn clone(&self) -> (copy: Value)
        ensures
            copy@ == self@,
        decreases self,
    {
        match self {
            Value::Null => Value::Null,
            Value::Bool(b) => Value::Bool(*b),
            Value::Num(n) => Value::Num(*n),
            Value::Str(s) => Value::Str(s.clone()),
            Value::List(items) => {
                let mut copies: Vec<Value> = Vec::new();
                let mut i: usize = 0;
                while i < items.len()
                    invariant
                        self is List,
                        self->List_0 == *items,
                        i <= items.len(),
                        copies.len() == i,
                        forall|j: int| 0 <= j < i ==> copies@[j]@ == items@[j]@,
                    decreases items.len() - i,
                {
                    assert(decreases_to!(items => items[i as int]));
                    copies.push(items[i].clone());
                    i += 1;
                }
                let copy = Value::List(copies);
                proof {
                    list_model(copy);
                    list_model(*self);
                    assert(copy@->List_0 =~= self@->List_0);
                }
                copy
            },
            Value::Func(name) => Value::Func(name.clone()),
        }
    }
}


/// A lexical token.
#[derive(Debug, PartialEq)]
pub enum Token {
    Null,
    Bool(bool),
    /// A binary64 number, held as its bit pattern.
    Num(u64),
    Str(String),
    Op(String),
    Ctrl(char),
    Ident(String),
    Fn,
    Let,
    Print,
    If,
    Else,
}

/// The mathematical model of a [`Token`].
pub enum TokenModel {
    Null,
    Bool(bool),
    Num(u64),
    Str(Seq<char>),
    Op(Seq<char>),
    Ctrl(char),
    Ident(Seq<char>),
    Fn,
    Let,
    Print,
    If,
    Else,
}

impl View for Token {
    type V = TokenModel;

    open spec fn view(&self) -> TokenModel {
        match self {
            Token::Null => TokenModel::Null,
            Token::Bool(b) => TokenModel::Bool(*b),
            Token::Num(n) => TokenModel::Num(*n),
            Token::Str(s) => TokenModel::Str(s@),
            Token::Op(s) => TokenModel::Op(s@),
            Token::Ctrl(c) => TokenModel::Ctrl(*c),
            Token::Ident(s) => TokenModel::Ident(s@),
            Token::Fn => TokenModel::Fn,
            Token::Let => TokenModel::Let,
            Token::Print => TokenModel::Print,
            Token::If => TokenModel::If,
            Token::Else => TokenModel::Else,
        }
    }
}

impl Clone for Token {
    fn clone(&self) -> (copy: Token)
        ensures
            copy@ == self@,
    {
        match self {
            Token::Null => Token::Null,
            Token::Bool(b) => Token::Bool(*b),
            Token::Num(n) => Token::Num(*n),
            Token::Str(s) => Token::Str(s.clone()),
            Token::Op(s) => Token::Op(s.clone()),
            Token::Ctrl(c) => Token::Ctrl(*c),
            Token::Ident(s) => Token::Ident(s.clone()),
            Token::Fn => Token::Fn,
            Token::Let => Token::Let,
            Token::Print => Token::Print,
            Token::If => Token::If,
            Token::Else => Token::Else,
        }
    }
}

/// The models of a run of tokens, each with its span.
pub open spec fn tokens_model(tokens: Seq<Spanned<Token>>) -> Seq<Spanned<TokenModel>> {
    tokens.map_values(|t: Spanned<Token>| (t.0@, t.1))
}

/// The operators that stand between two expressions.
#[derive(Clone, Copy, Debug, PartialEq, Eq, Structural)]
pub enum BinaryOp {
    Add,
    Sub,
    Mul,
    Div,
    Eq,
    NotEq,
}

impl BinaryOp {
    /// The four operators that take two numbers and give a number.
    pub open spec fn is_arithmetic(self) -> bool {
        self is Add || self is Sub || self is Mul || self is Div
    }
}

/// A node of the syntax tree. Every child carries the span it was read from.
#[derive(Debug, PartialEq)]
pub enum Expr {
    /// Stands where the parser could not read an expression; never evaluated.
    Error,
    Value(Value),
    List(Vec<Spanned<Expr>>),
    Local(String),
    Let(String, Box<Spanned<Expr>>, Box<Spanned<Expr>>),
    Then(Box<Spanned<Expr>>, Box<Spanned<Expr>>),
    Binary(Box<Spanned<Expr>>, BinaryOp, Box<Spanned<Expr>>),
    Call(Box<Spanned<Expr>>, Vec<Spanned<Expr>>),
    If(Box<Spanned<Expr>>, Box<Spanned<Expr>>, Box<Spanned<Expr>>),
    Print(Box<Spanned<Expr>>),
}

/// The mathematical model of an [`Expr`].
pub enum ExprModel {
    Error,
    Value(ValueModel),
    List(Seq<Spanned<ExprModel>>),
    Local(Seq<char>),
    Let(Seq<char>, Box<Spanned<ExprModel>>, Box<Spanned<ExprModel>>),
    Then(Box<Spanned<ExprModel>>, Box<Spanned<ExprModel>>),
    Binary(Box<Spanned<ExprModel>>, BinaryOp, Box<Spanned<ExprModel>>),
    Call(Box<Spanned<ExprModel>>, Seq<Spanned<ExprModel>>),
    If(Box<Spanned<ExprModel>>, Box<Spanned<ExprModel>>, Box<Spanned<ExprModel>>),
    Print(Box<Spanned<ExprModel>>),
}

/// The model of an expression.
pub open spec fn expr_model(e: Expr) -> ExprModel
    decreases e, 0nat,
{
    match e {
        Expr::Error => ExprModel::Error,
        Expr::Value(v) => ExprModel::Value(v@),
        Expr::List(items) => ExprModel::List(spanned_models_upto(items@, items@.len())),
        Expr::Local(name) => ExprModel::Local(name@),
        Expr::Let(name, bound, body) => ExprModel::Let(
            name@,
            Box::new((expr_model(bound.0), bound.1)),
            Box::new((expr_model(body.0), body.1)),
        ),
        Expr::Then(first, second) => ExprModel::Then(
            Box::new((expr_model(first.0), first.1)),
            Box::new((expr_model(second.0), second.1)),
        ),
        Expr::Binary(left, op, right) => ExprModel::Binary(
            Box::new((expr_model(left.0), left.1)),
            op,
            Box::new((expr_model(right.0), right.1)),
        ),
        Expr::Call(callee, args) => ExprModel::Call(
            Box::new((expr_model(callee.0), callee.1)),
            spanned_models_upto(args@, args@.len()),
        ),
        Expr::If(cond, yes, no) => ExprModel::If(
            Box::new((expr_model(cond.0), cond.1)),
            Box::new((expr_model(yes.0), yes.1)),
            Box::new((expr_model(no.0), no.1)),
        ),
        Expr::Print(inner) => ExprModel::Print(Box::new((expr_model(inner.0), inner.1))),
    }
}

/// The models of the first `k` of `items`, each with its span, in order.
pub open spec fn spanned_models_upto(items: Seq<Spanned<Expr>>, k: nat) -> Seq<Spanned<ExprModel>>
    decreases items, k,
{
    if k == 0 || k > items.len() {
        Seq::empty()
    } else {
        spanned_models_upto(items, (k - 1) as nat).push(
            (expr_model(items[k - 1].0), items[k - 1].1),
        )
    }
}

/// The model of an expression together with its span.
pub open spec fn spanned_model(e: Spanned<Expr>) -> Spanned<ExprModel> {
    (expr_model(e.0), e.1)
}

/// The models of a run of expressions, each with its span, in order.
pub open spec fn spanned_models(items: Seq<Spanned<Expr>>) -> Seq<Spanned<ExprModel>> {
    spanned_models_upto(items, items.len())
}

impl View for Expr {
    type V = ExprModel;

    open spec fn view(&self) -> ExprModel {
        expr_model(*self)
    }
}

/// The first `k` models are the models of the first `k` expressions.
pub proof fn spanned_models_upto_index(items: Seq<Spanned<Expr>>, k: nat)
    requires
        k <= items.len(),
    ensures
        spanned_models_upto(items, k).len() == k,
        forall|i: int|
            0 <= i < k ==> spanned_models_upto(items, k)[i] == spanned_model(#[trigger] items[i]),
    decreases k,
{
    if k > 0 {
        spanned_models_upto_index(items, (k - 1) as nat);
    }
}

/// The model of a run of expressions holds the model of each, in order.
pub proof fn spanned_models_index(items: Seq<Spanned<Expr>>)
    ensures
        spanned_models(items).len() == items.len(),
        forall|i: int|
            #![trigger spanned_models(items)[i]]
            #![trigger items[i]]
            0 <= i < items.len() ==> spanned_models(items)[i] == spanned_model(items[i]),
{
    spanned_models_upto_index(items, items.len());
}

/// A function definition: parameter names, the span of its header, and a body.
#[derive(Debug, PartialEq)]
pub struct Func {
    pub args: Vec<String>,
    pub span: Span,
    pub body: Spanned<Expr>,
}

/// The mathematical model of a [`Func`].
pub struct FuncModel {
    pub args: Seq<Seq<char>>,
    pub span: Span,
    pub body: Spanned<ExprModel>,
}

/// The names in a list of strings, as character sequences.
pub open spec fn names_model(names: Seq<String>) -> Seq<Seq<char>> {
    names.map_values(|s: String| s@)
}

impl View for Func {
    type V = FuncModel;

    open spec fn view(&self) -> FuncModel {
        FuncModel { args: names_model(self.args@), span: self.span, body: spanned_model(self.body) }
    }
}

/// What the evaluator expected a value to be.
#[derive(Clone, Copy, Debug, PartialEq, Eq, Structural)]
pub enum Kind {
    Number,
    Boolean,
    Function,
}

/// Why lexing, parsing or evaluation failed.
#[derive(Debug, PartialEq)]
pub enum ErrorKind {
    /// A character that starts no token.
    LexError,
    /// A numeric literal that the number converter refuses.
    InvalidNumber,
    /// A token sequence that the grammar does not admit.
    SyntaxError(Expected),
    /// A function declared a second time.
    DuplicateFunction(String),
    /// A name that is neither a visible variable nor a declared function.
    UnboundVariable(String),
    /// A value of the wrong kind for an operator, a condition or a call.
    TypeMismatch { wanted: Kind, value: Value },
    /// A call with the wrong number of arguments.
    ArityMismatch { name: String, expected: usize, found: usize },
    /// A function value whose name is not in the function table.
    UnknownFunction(String),
    /// Calls nested deeper than the caller allowed.
    DepthExceeded,
    /// The program declares no entry function.
    MissingEntryPoint,
    /// The entry function declares parameters.
    EntryPointHasArguments,
}

/// What the parser was looking for when it met something else.
#[derive(Clone, Copy, Debug, PartialEq, Eq, Structural)]
pub enum Expected {
    Expression,
    Identifier,
    Function,
    /// One particular control character.
    Ctrl(char),
    /// The `=` of a `let`.
    Assign,
    /// The `else` of an `if`.
    Else,
}

/// The mathematical model of an [`ErrorKind`].
pub enum ErrorKindModel {
    LexError,
    InvalidNumber,
    SyntaxError(Expected),
    DuplicateFunction(Seq<char>),
    UnboundVariable(Seq<char>),
    TypeMismatch { wanted: Kind, value: ValueModel },
    ArityMismatch { name: Seq<char>, expected: usize, found: usize },
    UnknownFunction(Seq<char>),
    DepthExceeded,
    MissingEntryPoint,
    EntryPointHasArguments,
}

impl View for ErrorKind {
    type V = ErrorKindModel;

    open spec fn view(&self) -> ErrorKindModel {
        match self {
            ErrorKind::LexError => ErrorKindModel::LexError,
            ErrorKind::InvalidNumber => ErrorKindModel::InvalidNumber,
            ErrorKind::SyntaxError(e) => ErrorKindModel::SyntaxError(*e),
            ErrorKind::DuplicateFunction(name) => ErrorKindModel::DuplicateFunction(name@),
            ErrorKind::UnboundVariable(name) => ErrorKindModel::UnboundVariable(name@),
            ErrorKind::TypeMismatch { wanted, value } => ErrorKindModel::TypeMismatch {
                wanted: *wanted,
                value: value@,
            },
            ErrorKind::ArityMismatch { name, expected, found } => ErrorKindModel::ArityMismatch {
                name: name@,
                expected: *expected,
                found: *found,
            },
            ErrorKind::UnknownFunction(name) => ErrorKindModel::UnknownFunction(name@),
            ErrorKind::DepthExceeded => ErrorKindModel::DepthExceeded,
            ErrorKind::MissingEntryPoint => ErrorKindModel::MissingEntryPoint,
            ErrorKind::EntryPointHasArguments => ErrorKindModel::EntryPointHasArguments,
        }
    }
}

/// A failure and the place in the source that it is about.
#[derive(Debug, PartialEq)]
pub struct Error {
    pub span: Span,
    pub kind: ErrorKind,
}

/// The mathematical model of an [`Error`].
pub struct ErrorModel {
    pub span: Span,
    pub kind: ErrorKindModel,
}

impl View for Error {
    type V = ErrorModel;

    open spec fn view(&self) -> ErrorModel {
        ErrorModel { span: self.span, kind: self.kind@ }
    }
}

impl Value {
    /// The number that this value is, or a type mismatch at `span` where it
    /// is none.
    pub fn num(self, span: Span) -> (res: Result<u64, Error>)
        ensures
            self@ is Num ==> res == Ok::<u64, Error>(self@->Num_0),
            !(self@ is Num) ==> res is Err && res->Err_0@ == (ErrorModel {
                span,
                kind: ErrorKindModel::TypeMismatch { wanted: Kind::Number, value: self@ },
            }),
    {
        match self {
            Value::Num(x) => Ok(x),
            other => Err(
                Error { span, kind: ErrorKind::TypeMismatch { wanted: Kind::Number, value: other } },
            ),
        }
    }
}

/// The models of a run of errors, in order.
pub open spec fn errors_model(errors: Seq<Error>) -> Seq<ErrorModel> {
    errors.map_values(|e: Error| e@)
}

} // verus!

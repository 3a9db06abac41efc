//! The Rust expressions and types that translation produces.
use crate::views::{copy_texts, lemma_deep_push};
use vstd::prelude::*;

verus! {

/// The suffix of a signed integer literal.
#[derive(Clone, Copy, Debug, PartialEq, Eq)]
pub enum IntTy {
    Isize,
    I8,
    I16,
    I32,
    I64,
    I128,
}

/// The suffix of a floating-point literal.
#[derive(Clone, Copy, Debug, PartialEq, Eq)]
pub enum FloatTy {
    F32,
    F64,
}

/// How an integer literal is typed.
#[derive(Clone, Copy, Debug, PartialEq, Eq)]
pub enum LitIntType {
    Signed(IntTy),
    Unsuffixed,
}

/// Whether a reference or pointer lets its target be changed.
#[derive(Clone, Copy, Debug, PartialEq, Eq)]
pub enum Mutability {
    Mutable,
    Immutable,
}

/// A unary operator.
#[derive(Clone, Copy, Debug, PartialEq, Eq)]
pub enum UnOp {
    Deref,
    Not,
    Neg,
}

/// A Rust type.
#[derive(Debug, PartialEq, Eq)]
pub enum Ty {
    /// A type named by a path.
    Path(Vec<String>),
    /// An array of known length.
    Array(Box<Ty>, usize),
    /// A reference.
    Ref(Mutability, Box<Ty>),
    /// A raw pointer.
    Ptr(Mutability, Box<Ty>),
}

/// The model of a [`Ty`].
pub enum TyView {
    Path(Seq<Seq<char>>),
    Array(Box<TyView>, usize),
    Ref(Mutability, Box<TyView>),
    Ptr(Mutability, Box<TyView>),
}

impl Ty {
    /// The model of the type.
    pub open spec fn tree(&self) -> TyView
        decreases self,
    {
        match self {
            Ty::Path(segments) => TyView::Path(segments.deep_view()),
            Ty::Array(elem, len) => TyView::Array(Box::new(elem.tree()), *len),
            Ty::Ref(m, target) => TyView::Ref(*m, Box::new(target.tree())),
            Ty::Ptr(m, target) => TyView::Ptr(*m, Box::new(target.tree())),
        }
    }

    /// A copy of the type.
    pub fn copy(&self) -> (r: Ty)
        ensures
            r.deep_view() == self.deep_view(),
        decreases self,
    {
        match self {
            Ty::Path(segments) => Ty::Path(copy_texts(segments)),
            Ty::Array(elem, len) => Ty::Array(Box::new(elem.copy()), *len),
            Ty::Ref(m, target) => Ty::Ref(*m, Box::new(target.copy())),
            Ty::Ptr(m, target) => Ty::Ptr(*m, Box::new(target.copy())),
        }
    }
}

impl DeepView for Ty {
    type V = TyView;

    open spec fn deep_view(&self) -> TyView {
        self.tree()
    }
}

/// A literal.
#[derive(Clone, Debug, PartialEq, Eq)]
pub enum Lit {
    /// An integer, written in decimal.
    Int(u128, LitIntType),
    /// A floating-point number, given by its text, with a suffix.
    Float(String, FloatTy),
    /// A number given by its text, without a suffix.
    FloatUnsuffixed(String),
    /// A character.
    Char(char),
    /// A byte string.
    ByteStr(Vec<u8>),
}

/// The model of a [`Lit`].
pub enum LitView {
    Int(u128, LitIntType),
    Float(Seq<char>, FloatTy),
    FloatUnsuffixed(Seq<char>),
    Char(char),
    ByteStr(Seq<u8>),
}

impl DeepView for Lit {
    type V = LitView;

    open spec fn deep_view(&self) -> LitView {
        match self {
            Lit::Int(value, ty) => LitView::Int(*value, *ty),
            Lit::Float(text, ty) => LitView::Float(text@, *ty),
            Lit::FloatUnsuffixed(text) => LitView::FloatUnsuffixed(text@),
            Lit::Char(c) => LitView::Char(*c),
            Lit::ByteStr(bytes) => LitView::ByteStr(bytes@),
        }
    }
}

/// A Rust expression.
#[derive(Debug, PartialEq, Eq)]
pub enum Expr {
    /// A literal.
    Lit(Lit),
    /// A path; an identifier is a path of one segment.
    Path(Vec<String>),
    /// `value as ty`.
    Cast(Box<Expr>, Ty),
    /// An operator applied to a value.
    Unary(UnOp, Box<Expr>),
    /// `[a, b, ..]`.
    Array(Vec<Expr>),
    /// A call of a function on arguments.
    Call(Box<Expr>, Vec<Expr>),
    /// `Name { field: value }`, with one field.
    Struct(Vec<String>, String, Box<Expr>),
    /// A value reinterpreted as of another type, through the `mem` module
    /// of `core` (where the flag is set) or of `std`.
    Transmute(Ty, Ty, Box<Expr>, bool),
}

/// The model of an [`Expr`].
pub enum ExprView {
    Lit(LitView),
    Path(Seq<Seq<char>>),
    Cast(Box<ExprView>, TyView),
    Unary(UnOp, Box<ExprView>),
    Array(Seq<ExprView>),
    Call(Box<ExprView>, Seq<ExprView>),
    Struct(Seq<Seq<char>>, Seq<char>, Box<ExprView>),
    Transmute(TyView, TyView, Box<ExprView>, bool),
}

impl Expr {
    /// The model of the expression.
    pub open spec fn tree(&self) -> ExprView
        decreases self,
    {
        match self {
            Expr::Lit(lit) => ExprView::Lit(lit.deep_view()),
            Expr::Path(segments) => ExprView::Path(segments.deep_view()),
            Expr::Cast(value, ty) => ExprView::Cast(Box::new(value.tree()), ty.deep_view()),
            Expr::Unary(op, value) => ExprView::Unary(*op, Box::new(value.tree())),
            Expr::Array(elems) => ExprView::Array(
                Seq::new(
                    elems.len() as nat,
                    |i: int|
                        if 0 <= i < elems.len() {
                            elems[i].tree()
                        } else {
                            ExprView::Array(Seq::empty())
                        },
                ),
            ),
            Expr::Call(callee, args) => ExprView::Call(
                Box::new(callee.tree()),
                Seq::new(
                    args.len() as nat,
                    |i: int|
                        if 0 <= i < args.len() {
                            args[i].tree()
                        } else {
                            ExprView::Array(Seq::empty())
                        },
                ),
            ),
            Expr::Struct(path, field, value) => ExprView::Struct(
                path.deep_view(),
                field@,
                Box::new(value.tree()),
            ),
            Expr::Transmute(source, target, value, no_std) => ExprView::Transmute(
                source.deep_view(),
                target.deep_view(),
                Box::new(value.tree()),
                *no_std,
            ),
        }
    }
}

impl Expr {
    /// A copy of the expression.
    pub fn copy(&self) -> (r: Expr)
        ensures
            r.deep_view() == self.deep_view(),
        decreases self,
    {
        match self {
            Expr::Lit(lit) => Expr::Lit(
                match lit {
                    Lit::Int(value, ty) => Lit::Int(*value, *ty),
                    Lit::Float(text, ty) => Lit::Float(text.clone(), *ty),
                    Lit::FloatUnsuffixed(text) => Lit::FloatUnsuffixed(text.clone()),
                    Lit::Char(c) => Lit::Char(*c),
                    Lit::ByteStr(bytes) => Lit::ByteStr(copy_bytes(bytes)),
                },
            ),
            Expr::Path(segments) => Expr::Path(copy_texts(segments)),
            Expr::Cast(value, ty) => Expr::Cast(Box::new(value.copy()), ty.copy()),
            Expr::Unary(op, value) => Expr::Unary(*op, Box::new(value.copy())),
            Expr::Array(elems) => {
                assert(self.deep_view()->Array_0 =~= elems.deep_view());
                array_expr(copy_exprs(elems))
            },
            Expr::Call(callee, args) => {
                assert(self.deep_view()->Call_1 =~= args.deep_view());
                call_expr(callee.copy(), copy_exprs(args))
            },
            Expr::Struct(path, field, value) => Expr::Struct(
                copy_texts(path),
                field.clone(),
                Box::new(value.copy()),
            ),
            Expr::Transmute(source, target, value, no_std) => Expr::Transmute(
                source.copy(),
                target.copy(),
                Box::new(value.copy()),
                *no_std,
            ),
        }
    }
}

/// A copy of a vector of bytes.
pub fn copy_bytes(bytes: &Vec<u8>) -> (copy: Vec<u8>)
    ensures
        copy@ == bytes@,
{
    let mut copy: Vec<u8> = Vec::new();
    let n = bytes.len();
    let mut i: usize = 0;
    while i < n
        invariant
            n == bytes.len(),
            i <= n,
            copy@ == bytes@.take(i as int),
        decreases n - i,
    {
        copy.push(bytes[i]);
        assert(copy@ =~= bytes@.take(i + 1));
        i += 1;
    }
    assert(bytes@.take(n as int) =~= bytes@);
    copy
}

/// A copy of a vector of expressions.
pub fn copy_exprs(elems: &Vec<Expr>) -> (copy: Vec<Expr>)
    ensures
        copy.deep_view() == elems.deep_view(),
    decreases elems,
{
    let mut copy: Vec<Expr> = Vec::new();
    let n = elems.len();
    let mut i: usize = 0;
    while i < n
        invariant
            n == elems.len(),
            i <= n,
            copy.len() == i,
            forall|k: int| 0 <= k < i ==> (#[trigger] copy.deep_view()[k]) == elems.deep_view()[k],
        decreases n - i,
    {
        let ghost before = copy;
        let e = elems[i].copy();
        copy.push(e);
        proof {
            lemma_deep_push(before, copy, e);
        }
        i += 1;
    }
    assert(copy.deep_view() =~= elems.deep_view());
    copy
}

impl DeepView for Expr {
    type V = ExprView;

    open spec fn deep_view(&self) -> ExprView {
        self.tree()
    }
}

/// The model of an array of the given elements.
pub open spec fn array_of(elems: Seq<ExprView>) -> ExprView {
    ExprView::Array(elems)
}

/// An integer literal without a suffix.
pub open spec fn int_lit(value: u128) -> ExprView {
    ExprView::Lit(LitView::Int(value, LitIntType::Unsuffixed))
}

/// The negation of a value.
pub open spec fn neg(value: ExprView) -> ExprView {
    ExprView::Unary(UnOp::Neg, Box::new(value))
}

/// A value cast to a type.
pub open spec fn cast(value: ExprView, ty: TyView) -> ExprView {
    ExprView::Cast(Box::new(value), ty)
}

/// The expression that is a literal.
pub fn lit_expr(lit: Lit) -> (e: Expr)
    ensures
        e.deep_view() == ExprView::Lit(lit.deep_view()),
{
    Expr::Lit(lit)
}

/// The expression that is an integer literal without a suffix.
pub fn int_lit_expr(value: u128) -> (e: Expr)
    ensures
        e.deep_view() == int_lit(value),
{
    Expr::Lit(Lit::Int(value, LitIntType::Unsuffixed))
}

/// The expression that is a path.
pub fn path_expr(segments: Vec<String>) -> (e: Expr)
    ensures
        e.deep_view() == ExprView::Path(segments.deep_view()),
{
    Expr::Path(segments)
}

/// `value as ty`.
pub fn cast_expr(value: Expr, ty: Ty) -> (e: Expr)
    ensures
        e.deep_view() == cast(value.deep_view(), ty.deep_view()),
{
    Expr::Cast(Box::new(value), ty)
}

/// An operator applied to a value.
pub fn unary_expr(op: UnOp, value: Expr) -> (e: Expr)
    ensures
        e.deep_view() == ExprView::Unary(op, Box::new(value.deep_view())),
{
    Expr::Unary(op, Box::new(value))
}

/// `path { field: value }`.
pub fn struct_expr(path: Vec<String>, field: String, value: Expr) -> (e: Expr)
    ensures
        e.deep_view() == ExprView::Struct(path.deep_view(), field@, Box::new(value.deep_view())),
{
    Expr::Struct(path, field, Box::new(value))
}

/// `value` reinterpreted as of the type `target`.
pub fn transmute_expr(source: Ty, target: Ty, value: Expr, no_std: bool) -> (e: Expr)
    ensures
        e.deep_view() == ExprView::Transmute(
            source.deep_view(),
            target.deep_view(),
            Box::new(value.deep_view()),
            no_std,
        ),
{
    Expr::Transmute(source, target, Box::new(value), no_std)
}

/// The type named by a path.
pub fn path_ty(segments: Vec<String>) -> (t: Ty)
    ensures
        t.deep_view() == TyView::Path(segments.deep_view()),
{
    Ty::Path(segments)
}

/// The type of arrays of `len` elements of the type `elem`.
pub fn array_ty(elem: Ty, len: usize) -> (t: Ty)
    ensures
        t.deep_view() == TyView::Array(Box::new(elem.deep_view()), len),
{
    Ty::Array(Box::new(elem), len)
}

/// The type of references to the type `target`.
pub fn ref_ty(mutbl: Mutability, target: Ty) -> (t: Ty)
    ensures
        t.deep_view() == TyView::Ref(mutbl, Box::new(target.deep_view())),
{
    Ty::Ref(mutbl, Box::new(target))
}

/// The array expression of the given elements.
pub fn array_expr(elems: Vec<Expr>) -> (e: Expr)
    ensures
        e.deep_view() == array_of(elems.deep_view()),
{
    let e = Expr::Array(elems);
    assert(e.deep_view()->Array_0 =~= elems.deep_view());
    e
}

/// The call of `callee` on `args`.
pub fn call_expr(callee: Expr, args: Vec<Expr>) -> (e: Expr)
    ensures
        e.deep_view() == ExprView::Call(Box::new(callee.deep_view()), args.deep_view()),
{
    let e = Expr::Call(Box::new(callee), args);
    assert(e.deep_view()->Call_1 =~= args.deep_view());
    e
}

/// A statement.
#[derive(Debug, PartialEq, Eq)]
pub enum Stmt {
    /// An expression whose value the block gives.
    Expr(Expr),
    /// An expression followed by a semicolon.
    Semi(Expr),
}

/// The model of a [`Stmt`].
pub enum StmtView {
    Expr(ExprView),
    Semi(ExprView),
}

impl DeepView for Stmt {
    type V = StmtView;

    open spec fn deep_view(&self) -> StmtView {
        match self {
            Stmt::Expr(e) => StmtView::Expr(e.deep_view()),
            Stmt::Semi(e) => StmtView::Semi(e.deep_view()),
        }
    }
}

/// A translated expression with the statements that must run before it,
/// and whether it needs an unsafe block.
#[derive(Debug, PartialEq, Eq)]
pub struct WithStmts {
    pub stmts: Vec<Stmt>,
    pub val: Expr,
    pub is_unsafe: bool,
}

/// The model of a [`WithStmts`].
pub struct WithStmtsView {
    pub stmts: Seq<StmtView>,
    pub val: ExprView,
    pub is_unsafe: bool,
}

impl DeepView for WithStmts {
    type V = WithStmtsView;

    open spec fn deep_view(&self) -> WithStmtsView {
        WithStmtsView {
            stmts: self.stmts.deep_view(),
            val: self.val.deep_view(),
            is_unsafe: self.is_unsafe,
        }
    }
}

/// The model of a safe value that needs no statements.
pub open spec fn plain(val: ExprView) -> WithStmtsView {
    WithStmtsView { stmts: Seq::empty(), val, is_unsafe: false }
}

impl Stmt {
    /// A copy of the statement.
    pub fn copy(&self) -> (r: Stmt)
        ensures
            r.deep_view() == self.deep_view(),
    {
        match self {
            Stmt::Expr(e) => Stmt::Expr(e.copy()),
            Stmt::Semi(e) => Stmt::Semi(e.copy()),
        }
    }
}

impl WithStmts {
    /// A copy of the value with its statements.
    pub fn copy(&self) -> (r: WithStmts)
        ensures
            r.deep_view() == self.deep_view(),
    {
        let mut stmts: Vec<Stmt> = Vec::new();
        let n = self.stmts.len();
        let mut i: usize = 0;
        while i < n
            invariant
                n == self.stmts.len(),
                i <= n,
                stmts.len() == i,
                forall|k: int|
                    0 <= k < i ==> (#[trigger] stmts.deep_view()[k]) == self.stmts.deep_view()[k],
            decreases n - i,
        {
            let ghost before = stmts;
            let stmt = self.stmts[i].copy();
            stmts.push(stmt);
            proof {
                lemma_deep_push(before, stmts, stmt);
            }
            i += 1;
        }
        assert(stmts.deep_view() =~= self.stmts.deep_view());
        WithStmts { stmts, val: self.val.copy(), is_unsafe: self.is_unsafe }
    }

    /// A safe value that needs no statements.
    pub fn new_val(val: Expr) -> (w: WithStmts)
        ensures
            w.deep_view() == plain(val.deep_view()),
    {
        let w = WithStmts { stmts: Vec::new(), val, is_unsafe: false };
        assert(w.stmts.deep_view() =~= Seq::<StmtView>::empty());
        w
    }

    /// A value that needs no statements but an unsafe block.
    pub fn new_unsafe_val(val: Expr) -> (w: WithStmts)
        ensures
            w.deep_view() == (WithStmtsView { is_unsafe: true, ..plain(val.deep_view()) }),
    {
        let w = WithStmts { stmts: Vec::new(), val, is_unsafe: true };
        assert(w.stmts.deep_view() =~= Seq::<StmtView>::empty());
        w
    }
}

} // verus!

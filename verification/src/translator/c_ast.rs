//! The parts of a typed C program that the translation of literals reads.
use vstd::prelude::*;

verus! {

/// The number of a C type.
#[derive(Clone, Copy, Debug, PartialEq, Eq)]
pub struct CTypeId(pub usize);

/// The number of a C expression.
#[derive(Clone, Copy, Debug, PartialEq, Eq)]
pub struct CExprId(pub usize);

/// The number of a C declaration: a record, a field, an enum or one of its constants.
#[derive(Clone, Copy, Debug, PartialEq, Eq)]
pub struct CDeclId(pub usize);

/// The qualifiers of a type.
#[derive(Clone, Copy, Debug, PartialEq, Eq)]
pub struct Qualifiers {
    pub is_const: bool,
    pub is_restrict: bool,
    pub is_volatile: bool,
}

/// A type with its qualifiers.
#[derive(Clone, Copy, Debug, PartialEq, Eq)]
pub struct CQualTypeId {
    pub qualifiers: Qualifiers,
    pub ctype: CTypeId,
}

/// What a C type is, once type names are resolved.
#[derive(Clone, Copy, Debug, PartialEq, Eq)]
pub enum CTypeKind {
    Void,
    Bool,
    Char,
    SChar,
    Short,
    Int,
    Long,
    LongLong,
    UChar,
    UShort,
    UInt,
    ULong,
    ULongLong,
    Float,
    Double,
    LongDouble,
    Pointer(CQualTypeId),
    ConstantArray(CTypeId, usize),
    Struct(CDeclId),
    Union(CDeclId),
    Enum(CDeclId),
    Vector(CQualTypeId, usize),
}

/// The value of an enum constant.
#[derive(Clone, Copy, Debug, PartialEq, Eq)]
pub enum ConstIntExpr {
    U(u64),
    I(i64),
}

/// A declaration.
#[derive(Clone, Debug, PartialEq, Eq)]
pub enum CDeclKind {
    /// An enum: its constants in order, and its underlying type unless the
    /// enum is only declared forward.
    Enum { variants: Vec<CDeclId>, integral_type: Option<CQualTypeId> },
    /// A constant of an enum.
    EnumConstant { value: ConstIntExpr },
    /// A struct; the flag says that the struct is split into an outer and
    /// an inner one.
    Struct { has_inner_struct_decl: bool },
    /// A union.
    Union,
    /// A field of a record.
    Field { typ: CQualTypeId },
    /// Any other declaration.
    Other,
}

/// The base in which an integer literal was written.
#[derive(Clone, Copy, Debug, PartialEq, Eq)]
pub enum IntBase {
    Dec,
    Hex,
    Oct,
}

/// A literal of the C program.
#[derive(Clone, Debug, PartialEq, Eq)]
pub enum CLiteral {
    /// An integer and the base in which it was written.
    Integer(u64, IntBase),
    /// A character, by its code.
    Character(u64),
    /// A floating-point number: the shortest decimal text that gives its
    /// value back, and its spelling in the source, which may be empty.
    Floating(String, String),
    /// A string: its bytes, and the width of one character in bytes.
    String(Vec<u8>, u8),
}

/// The kind of a cast.
#[derive(Clone, Copy, Debug, PartialEq, Eq)]
pub enum CastKind {
    /// A cast that only adds or removes `const`.
    ConstCast,
    /// Any other cast.
    Other,
}

/// An expression, as far as initializer lists look at it.
#[derive(Clone, Debug, PartialEq, Eq)]
pub enum CExprKind {
    Literal(CQualTypeId, CLiteral),
    ImplicitCast(CQualTypeId, CExprId, CastKind),
    Other,
}

/// How the expression under translation is used.
#[derive(Clone, Copy, Debug, PartialEq, Eq)]
pub struct ExprContext {
    /// Its value is used.
    pub used: bool,
    /// It initializes a static.
    pub is_static: bool,
    /// It stands in a constant context.
    pub is_const: bool,
}

impl ExprContext {
    /// The same context for an expression whose value is used.
    pub fn used(self) -> (ctx: ExprContext)
        ensures
            ctx == (ExprContext { used: true, ..self }),
    {
        ExprContext { used: true, is_static: self.is_static, is_const: self.is_const }
    }
}

/// The typed C program: its types, declarations and expressions, each by its number.
#[derive(Clone, Debug, PartialEq, Eq)]
pub struct TypedAstContext {
    pub types: Vec<CTypeKind>,
    pub decls: Vec<CDeclKind>,
    pub exprs: Vec<CExprKind>,
}

impl TypedAstContext {
    /// The kind of the type `id`.
    pub fn resolve_type(&self, id: CTypeId) -> (kind: CTypeKind)
        requires
            id.0 < self.types.len(),
        ensures
            kind == self.types[id.0 as int],
    {
        self.types[id.0]
    }

    /// Whether the struct `id` is split into an outer and an inner struct.
    pub fn has_inner_struct_decl(&self, id: CDeclId) -> (split: bool)
        requires
            id.0 < self.decls.len(),
        ensures
            split == (self.decls[id.0 as int] matches CDeclKind::Struct { has_inner_struct_decl }
                && has_inner_struct_decl),
    {
        match &self.decls[id.0] {
            CDeclKind::Struct { has_inner_struct_decl } => *has_inner_struct_decl,
            _ => false,
        }
    }
}

} // verus!

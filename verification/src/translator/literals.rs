//! Literal expressions of every kind: integers, characters, floating-point
//! numbers, strings, and the initializers of arrays, structs, unions and enums.
use crate::text::{digits, push_digits};
use crate::translator::c_ast::{
    CDeclId, CDeclKind, CLiteral, CQualTypeId, CTypeId, CTypeKind, ConstIntExpr, ExprContext,
    IntBase, TypedAstContext,
};
use crate::translator::rust_ast::{
    array_expr, array_of, array_ty, call_expr, cast, cast_expr, int_lit, int_lit_expr, lit_expr,
    neg, path_expr, path_ty, plain, ref_ty, transmute_expr, unary_expr, Expr, ExprView, FloatTy,
    IntTy, Lit, LitIntType, LitView, Mutability, Ty, TyView, UnOp, WithStmts, WithStmtsView,
};
use crate::views::{lemma_deep_push, result_view};
use vstd::prelude::*;
use vstd::string::*;

verus! {

/// Why a translation failed.
#[derive(Debug, PartialEq, Eq)]
pub enum TranslationError {
    /// A failure described in words.
    Generic(String),
    /// An initializer list for a type that takes none.
    InitListNotImplemented(CTypeKind),
}

/// The model of a [`TranslationError`].
pub enum TranslationErrorView {
    Generic(Seq<char>),
    InitListNotImplemented(CTypeKind),
}

impl DeepView for TranslationError {
    type V = TranslationErrorView;

    open spec fn deep_view(&self) -> TranslationErrorView {
        match self {
            TranslationError::Generic(text) => TranslationErrorView::Generic(text@),
            TranslationError::InitListNotImplemented(kind) => {
                TranslationErrorView::InitListNotImplemented(*kind)
            },
        }
    }
}

impl TranslationError {
    /// A copy of the error.
    pub fn copy(&self) -> (e: TranslationError)
        ensures
            e.deep_view() == self.deep_view(),
    {
        match self {
            TranslationError::Generic(text) => TranslationError::Generic(text.clone()),
            TranslationError::InitListNotImplemented(kind) => {
                TranslationError::InitListNotImplemented(*kind)
            },
        }
    }
}

/// A crate that the translated program may need.
#[derive(Clone, Copy, Debug, PartialEq, Eq, Structural)]
pub enum ExternCrate {
    C2RustBitfields,
    C2RustAsmCasts,
    F128,
    NumTraits,
    Memoffset,
    Libc,
}

/// A name that a file of the translated program must import.
#[derive(Debug, PartialEq, Eq)]
pub struct Import {
    pub file: usize,
    pub decl: CDeclId,
    pub name: String,
}

/// The model of an [`Import`].
pub struct ImportView {
    pub file: usize,
    pub decl: CDeclId,
    pub name: Seq<char>,
}

impl DeepView for Import {
    type V = ImportView;

    open spec fn deep_view(&self) -> ImportView {
        ImportView { file: self.file, decl: self.decl, name: self.name@ }
    }
}

/// The translation of one C program: the program, what the translation of
/// its types and names has given, and what the translated program was
/// found to need.
pub struct Translation {
    /// The C program.
    pub ast_context: TypedAstContext,
    /// The Rust type of each C type, or why it has none.
    pub rust_types: Vec<Result<Ty, TranslationError>>,
    /// The Rust name of each declaration that has one.
    pub decl_names: Vec<Option<String>>,
    /// The file under translation, where files are told apart.
    pub cur_file: Option<usize>,
    /// Whether the translated program does without `std`.
    pub emit_no_std: bool,
    /// The imports that the translated files need.
    pub imports: Vec<Import>,
    /// The language features that the translated program needs.
    pub features: Vec<String>,
    /// The crates that the translated program needs.
    pub extern_crates: Vec<ExternCrate>,
}

/// The literal that writes `val` as it was written in C: in decimal as an
/// integer, in hexadecimal or octal as a number given by its text.
pub open spec fn int_lit_of(val: u64, base: IntBase) -> LitView {
    match base {
        IntBase::Dec => LitView::Int(val as u128, LitIntType::Unsuffixed),
        IntBase::Hex => LitView::FloatUnsuffixed("0x"@ + digits(val as nat, 16)),
        IntBase::Oct => LitView::FloatUnsuffixed("0o"@ + digits(val as nat, 8)),
    }
}

/// The expression for a signed number: a literal, negated where the number is negative.
pub open spec fn signed_int(value: i64) -> ExprView {
    if value < 0 {
        neg(int_lit((-value) as u128))
    } else {
        int_lit(value as u128)
    }
}

/// The expression for a signed number.
pub fn signed_int_expr(value: i64) -> (e: Expr)
    ensures
        e.deep_view() == signed_int(value),
{
    if value < 0 {
        let wide: i128 = value as i128;
        let magnitude: u128 = (0 - wide) as u128;
        unary_expr(UnOp::Neg, int_lit_expr(magnitude))
    } else {
        int_lit_expr(value as u128)
    }
}

/// Whether an enum constant has the value `value`, read as signed or as unsigned.
pub open spec fn has_value(v: ConstIntExpr, value: i64) -> bool {
    v == ConstIntExpr::I(value) || v == ConstIntExpr::U(value as u64)
}

/// The value of the enum constant `id`, if `id` is one.
pub open spec fn constant_value(decls: Seq<CDeclKind>, id: CDeclId) -> Option<ConstIntExpr> {
    if id.0 < decls.len() {
        match decls[id.0 as int] {
            CDeclKind::EnumConstant { value } => Some(value),
            _ => None,
        }
    } else {
        None
    }
}

/// The first of `variants` that has the value `value`.
pub open spec fn variant_with_value(decls: Seq<CDeclKind>, variants: Seq<CDeclId>, value: i64) -> Option<
    CDeclId,
>
    decreases variants.len(),
{
    if variants.len() == 0 {
        None
    } else if constant_value(decls, variants[0]) matches Some(v) && has_value(v, value) {
        Some(variants[0])
    } else {
        variant_with_value(decls, variants.skip(1), value)
    }
}

/// The search for the value among `variants` meets enum constants only.
pub open spec fn variants_searchable(decls: Seq<CDeclKind>, variants: Seq<CDeclId>, value: i64) -> bool
    decreases variants.len(),
{
    variants.len() == 0 || match constant_value(decls, variants[0]) {
        None => false,
        Some(v) => has_value(v, value) || variants_searchable(decls, variants.skip(1), value),
    }
}

/// `char::from_u32` gives the character with the code `i` where `i` is a
/// Unicode scalar value, and nothing for any other number.
pub assume_specification[ char::from_u32 ](i: u32) -> (r: Option<char>)
    ensures
        r is Some <==> is_scalar_value(i),
        r matches Some(c) ==> c as u32 == i,
;

/// The codes of characters: all numbers up to `0x10FFFF` but the surrogates.
pub open spec fn is_scalar_value(v: u32) -> bool {
    v <= 0xD7FF || 0xE000 <= v <= 0x10FFFF
}

/// The type `i32`.
pub open spec fn i32_ty() -> TyView {
    TyView::Path(seq!["i32"@])
}

/// The expression for the C character with the code `v`: the character
/// itself, cast to `i32`, where Rust has that character; the code as an
/// `i32` literal otherwise, negated where the code read as an `i32` is negative.
pub open spec fn char_expr(v: u32) -> ExprView {
    if is_scalar_value(v) {
        cast(ExprView::Lit(LitView::Char(v as char)), i32_ty())
    } else if v >= 0x8000_0000 {
        neg(ExprView::Lit(LitView::Int((0x1_0000_0000 - v) as u128, LitIntType::Signed(IntTy::I32))))
    } else {
        ExprView::Lit(LitView::Int(v as u128, LitIntType::Signed(IntTy::I32)))
    }
}

/// The expression for a floating-point literal of the given type, written as `text`.
pub open spec fn float_expr(kind: CTypeKind, text: Seq<char>) -> ExprView {
    match kind {
        CTypeKind::LongDouble => ExprView::Call(
            Box::new(ExprView::Path(seq!["f128"@, "f128"@, "new"@])),
            seq![ExprView::Path(seq![text])],
        ),
        CTypeKind::Double => ExprView::Lit(LitView::Float(text, FloatTy::F64)),
        _ => ExprView::Lit(LitView::Float(text, FloatTy::F32)),
    }
}

/// `bytes` cut or padded with zeros to the length `len`.
pub open spec fn resized(bytes: Seq<u8>, len: nat) -> Seq<u8> {
    Seq::new(
        len,
        |i: int|
            if i < bytes.len() {
                bytes[i]
            } else {
                0u8
            },
    )
}

/// The bytes of a string literal of the given type: fitted to the size of
/// an array, and ended by one character of zeros otherwise.
pub open spec fn string_bytes(kind: CTypeKind, val: Seq<u8>, width: u8) -> Seq<u8> {
    match kind {
        CTypeKind::ConstantArray(elem, size) => resized(val, (size * width) as nat),
        _ => resized(val, val.len() + width as nat),
    }
}

/// The expression for one byte of a string in a static: the byte as a
/// number, or the negative number that it is as a `signed char` where the
/// elements are not `unsigned char`.
pub open spec fn byte_expr(c: u8, expects_uchars: bool) -> ExprView {
    if !expects_uchars && c >= 128 {
        neg(int_lit((256 - c) as u128))
    } else {
        int_lit(c as u128)
    }
}

/// The type `[u8; len]` behind a shared reference.
pub open spec fn bytes_ref_ty(len: usize) -> TyView {
    TyView::Ref(
        Mutability::Immutable,
        Box::new(TyView::Array(Box::new(TyView::Path(seq!["u8"@])), len)),
    )
}

/// The name of the feature that lets a constant reinterpret a value.
pub open spec fn const_transmute() -> Seq<char> {
    "const_transmute"@
}

/// `after` is `before` but for what the translated program needs:
/// its imports, features and crates.
pub open spec fn same_program(before: Translation, after: Translation) -> bool {
    &&& after.ast_context == before.ast_context
    &&& after.rust_types == before.rust_types
    &&& after.decl_names == before.decl_names
    &&& after.cur_file == before.cur_file
    &&& after.emit_no_std == before.emit_no_std
}

impl Translation {
    /// The Rust type of the C type `ctype`.
    pub fn convert_type(&self, ctype: CTypeId) -> (r: Result<Ty, TranslationError>)
        requires
            ctype.0 < self.rust_types.len(),
        ensures
            result_view(r) == result_view(self.rust_types[ctype.0 as int]),
    {
        match &self.rust_types[ctype.0] {
            Ok(ty) => Ok(ty.copy()),
            Err(e) => Err(e.copy()),
        }
    }

    /// An integer literal of the given value, written in the given base,
    /// cast to the Rust type of `ty`.
    pub fn mk_int_lit(&self, ty: CQualTypeId, val: u64, base: IntBase) -> (r: Result<
        Expr,
        TranslationError,
    >)
        requires
            ty.ctype.0 < self.rust_types.len(),
        ensures
            result_view(r) == (match result_view(self.rust_types[ty.ctype.0 as int]) {
                Ok(target) => Ok(cast(ExprView::Lit(int_lit_of(val, base)), target)),
                Err(e) => Err(e),
            }),
    {
        let lit = match base {
            IntBase::Dec => Lit::Int(val as u128, LitIntType::Unsuffixed),
            IntBase::Hex => {
                let mut text = String::from_str("0x");
                push_digits(&mut text, val, 16);
                Lit::FloatUnsuffixed(text)
            },
            IntBase::Oct => {
                let mut text = String::from_str("0o");
                push_digits(&mut text, val, 8);
                Lit::FloatUnsuffixed(text)
            },
        };
        match self.convert_type(ty.ctype) {
            Ok(target) => Ok(cast_expr(lit_expr(lit), target)),
            Err(e) => Err(e),
        }
    }

    /// The enum that the type `enum_type_id` names can be given the value
    /// `value`: the type is an enum, the search among its constants meets
    /// constants only, the constant that is found has a name, and where
    /// none is found the enum has an underlying type and a Rust type.
    pub open spec fn enum_translatable(&self, enum_type_id: CTypeId, value: i64) -> bool {
        let types = self.ast_context.types@;
        let decls = self.ast_context.decls@;
        &&& enum_type_id.0 < types.len()
        &&& types[enum_type_id.0 as int] matches CTypeKind::Enum(def)
        &&& def.0 < decls.len()
        &&& decls[def.0 as int] matches CDeclKind::Enum { variants, integral_type }
        &&& variants_searchable(decls, variants@, value)
        &&& match variant_with_value(decls, variants@, value) {
            Some(variant) => variant.0 < self.decl_names.len() && self.decl_names[variant.0 as int]
                is Some,
            None => {
                &&& integral_type matches Some(underlying)
                &&& underlying.ctype.0 < types.len()
                &&& enum_type_id.0 < self.rust_types.len()
                &&& self.rust_types[enum_type_id.0 as int] is Ok
            },
        }
    }

    /// The constant of the enum of the type `enum_type_id` that has the
    /// value `value`, if one has.
    pub open spec fn enum_variant(&self, enum_type_id: CTypeId, value: i64) -> Option<CDeclId> {
        let def = self.ast_context.types[enum_type_id.0 as int]->Enum_0;
        let variants = self.ast_context.decls[def.0 as int]->Enum_variants;
        variant_with_value(self.ast_context.decls@, variants@, value)
    }

    /// The expression of the enum type `enum_type_id` for the value
    /// `value`: the constant that has the value, by name; where none has,
    /// the number cast to the enum's type, written without a sign where
    /// the underlying type is `unsigned int` or `unsigned long`.
    pub open spec fn enum_expr(&self, enum_type_id: CTypeId, value: i64) -> ExprView {
        let types = self.ast_context.types@;
        let def = types[enum_type_id.0 as int]->Enum_0;
        let underlying = self.ast_context.decls[def.0 as int]->Enum_integral_type;
        match self.enum_variant(enum_type_id, value) {
            Some(variant) => ExprView::Path(seq![self.decl_names[variant.0 as int]->0@]),
            None => {
                let number = match types[underlying->0.ctype.0 as int] {
                    CTypeKind::UInt => int_lit((value as u32) as u128),
                    CTypeKind::ULong => int_lit((value as u64) as u128),
                    _ => signed_int(value),
                };
                cast(number, self.rust_types[enum_type_id.0 as int]->Ok_0.deep_view())
            },
        }
    }

    /// Records that `file` must import the declaration `decl` under `name`.
    pub fn add_import(&mut self, file: usize, decl: CDeclId, name: String)
        ensures
            same_program(*old(self), *final(self)),
            final(self).features == old(self).features,
            final(self).extern_crates == old(self).extern_crates,
            final(self).imports.deep_view() == old(self).imports.deep_view().push(
                ImportView { file, decl, name: name@ },
            ),
    {
        let ghost before = self.imports;
        let import = Import { file, decl, name };
        self.imports.push(import);
        proof {
            lemma_deep_push(before, self.imports, import);
        }
    }

    /// The first constant of the enum `def` that has the value `value`.
    pub fn find_variant(&self, def: CDeclId, value: i64) -> (found: Option<CDeclId>)
        requires
            def.0 < self.ast_context.decls.len(),
            self.ast_context.decls[def.0 as int] is Enum,
            variants_searchable(
                self.ast_context.decls@,
                self.ast_context.decls[def.0 as int]->Enum_variants@,
                value,
            ),
        ensures
            found == variant_with_value(
                self.ast_context.decls@,
                self.ast_context.decls[def.0 as int]->Enum_variants@,
                value,
            ),
    {
        match &self.ast_context.decls[def.0] {
            CDeclKind::Enum { variants, integral_type } => {
                let ghost decls = self.ast_context.decls@;
                let n = variants.len();
                let mut i: usize = 0;
                assert(variants@.skip(0) =~= variants@);
                while i < n
                    invariant
                        n == variants.len(),
                        i <= n,
                        decls == self.ast_context.decls@,
                        def.0 < decls.len(),
                        decls[def.0 as int] is Enum,
                        decls[def.0 as int]->Enum_variants@ == variants@,
                        variants_searchable(decls, variants@.skip(i as int), value),
                        variant_with_value(decls, variants@, value) == variant_with_value(
                            decls,
                            variants@.skip(i as int),
                            value,
                        ),
                    decreases n - i,
                {
                    assert(variants@.skip(i as int).skip(1) =~= variants@.skip(i + 1));
                    let id = variants[i];
                    assert(constant_value(decls, id) is Some);
                    let hit = match &self.ast_context.decls[id.0] {
                        CDeclKind::EnumConstant { value: v } => match v {
                            ConstIntExpr::I(x) => *x == value,
                            ConstIntExpr::U(x) => *x == #[verifier::truncate] (value as u64),
                        },
                        _ => false,
                    };
                    assert(variants@.skip(i as int)[0] == id);
                    assert(hit == has_value(constant_value(decls, id)->0, value));
                    if hit {
                        return Some(id);
                    }
                    i += 1;
                }
                None
            },
            _ => None,
        }
    }

    /// The expression of the enum type `enum_type_id` for the value
    /// `value`. Where a constant of the enum has the value, the file under
    /// translation, if there is one, is made to import it.
    pub fn enum_for_i64(&mut self, enum_type_id: CTypeId, value: i64) -> (e: Expr)
        requires
            old(self).enum_translatable(enum_type_id, value),
        ensures
            e.deep_view() == old(self).enum_expr(enum_type_id, value),
            same_program(*old(self), *final(self)),
            final(self).features == old(self).features,
            final(self).extern_crates == old(self).extern_crates,
            final(self).imports.deep_view() == (match (
                old(self).enum_variant(enum_type_id, value),
                old(self).cur_file,
            ) {
                (Some(variant), Some(file)) => old(self).imports.deep_view().push(
                    ImportView {
                        file,
                        decl: variant,
                        name: old(self).decl_names[variant.0 as int]->0@,
                    },
                ),
                _ => old(self).imports.deep_view(),
            }),
    {
        let def = match self.ast_context.resolve_type(enum_type_id) {
            CTypeKind::Enum(def) => def,
            _ => vstd::pervasive::unreached(),
        };
        match self.find_variant(def, value) {
            Some(variant) => {
                let name = match &self.decl_names[variant.0] {
                    Some(name) => name.clone(),
                    None => vstd::pervasive::unreached(),
                };
                match self.cur_file {
                    Some(file) => {
                        self.add_import(file, variant, name.clone());
                    },
                    None => {},
                }
                let mut segments: Vec<String> = Vec::new();
                segments.push(name);
                assert(segments.deep_view() =~= seq![name@]);
                path_expr(segments)
            },
            None => {
                let underlying = match &self.ast_context.decls[def.0] {
                    CDeclKind::Enum { variants, integral_type } => match integral_type {
                        Some(underlying) => *underlying,
                        None => vstd::pervasive::unreached(),
                    },
                    _ => vstd::pervasive::unreached(),
                };
                let number = match self.ast_context.resolve_type(underlying.ctype) {
                    CTypeKind::UInt => int_lit_expr(
                        (#[verifier::truncate] (value as u32)) as u128,
                    ),
                    CTypeKind::ULong => int_lit_expr(
                        (#[verifier::truncate] (value as u64)) as u128,
                    ),
                    _ => signed_int_expr(value),
                };
                let target = match self.convert_type(enum_type_id) {
                    Ok(target) => target,
                    Err(_) => vstd::pervasive::unreached(),
                };
                cast_expr(number, target)
            },
        }
    }

    /// Records that the translated program needs the language feature `feature`.
    pub fn use_feature(&mut self, feature: &str)
        ensures
            same_program(*old(self), *final(self)),
            final(self).imports == old(self).imports,
            final(self).extern_crates == old(self).extern_crates,
            final(self).features.deep_view().to_set() == old(self).features.deep_view().to_set().insert(
                feature@,
            ),
    {
        let ghost before = self.features;
        let name = String::from_str(feature);
        self.features.push(name);
        proof {
            lemma_deep_push(before, self.features, name);
            let a = before.deep_view();
            let b = self.features.deep_view();
            assert forall|x: Seq<char>| b.to_set().contains(x) <==> a.to_set().insert(
                feature@,
            ).contains(x) by {
                if b.contains(x) {
                    let k = choose|k: int| 0 <= k < b.len() && b[k] == x;
                    if k < a.len() {
                        assert(a[k] == x);
                    }
                }
                if a.contains(x) {
                    let k = choose|k: int| 0 <= k < a.len() && a[k] == x;
                    assert(b[k] == x);
                }
                if x == feature@ {
                    assert(b[a.len() as int] == x);
                }
            }
            assert(b.to_set() =~= a.to_set().insert(feature@));
        }
    }

    /// Records that the translated program needs the crate `krate`.
    pub fn use_crate(&mut self, krate: ExternCrate)
        ensures
            same_program(*old(self), *final(self)),
            final(self).imports == old(self).imports,
            final(self).features == old(self).features,
            final(self).extern_crates@.to_set() == old(self).extern_crates@.to_set().insert(krate),
    {
        let ghost a = self.extern_crates@;
        self.extern_crates.push(krate);
        proof {
            let b = self.extern_crates@;
            assert forall|x: ExternCrate| b.to_set().contains(x) <==> a.to_set().insert(
                krate,
            ).contains(x) by {
                if b.contains(x) {
                    let k = choose|k: int| 0 <= k < b.len() && b[k] == x;
                    if k < a.len() {
                        assert(a[k] == x);
                    }
                }
                if a.contains(x) {
                    let k = choose|k: int| 0 <= k < a.len() && a[k] == x;
                    assert(b[k] == x);
                }
                if x == krate {
                    assert(b[a.len() as int] == x);
                }
            }
            assert(b.to_set() =~= a.to_set().insert(krate));
        }
    }

    /// The literal `kind` of the type `ty` can be translated: the type is
    /// known; a character's code is not the one number whose negation has
    /// no `i32`; a floating-point literal has a floating-point type; and
    /// the array that a string fills has a known element type and a size
    /// in bytes that fits the machine.
    pub open spec fn literal_translatable(&self, ty: CQualTypeId, kind: CLiteral) -> bool {
        let types = self.ast_context.types@;
        &&& ty.ctype.0 < types.len()
        &&& ty.ctype.0 < self.rust_types.len()
        &&& match kind {
            CLiteral::Integer(val, base) => true,
            CLiteral::Character(val) => (val as u32) != 0x8000_0000,
            CLiteral::Floating(val, text) => {
                let t = types[ty.ctype.0 as int];
                t is LongDouble || t is Double || t is Float
            },
            CLiteral::String(val, width) => match types[ty.ctype.0 as int] {
                CTypeKind::ConstantArray(elem, size) => elem.0 < types.len() && size * width
                    <= usize::MAX,
                _ => val.len() + width <= usize::MAX,
            },
        }
    }

    /// The text of a floating-point literal: its spelling in the source,
    /// or, where that is empty, the decimal text of its value.
    pub open spec fn float_text(val: Seq<char>, spelling: Seq<char>) -> Seq<char> {
        if spelling.len() == 0 {
            val
        } else {
            spelling
        }
    }

    /// Whether the elements of the array type that a string fills are `unsigned char`.
    pub open spec fn expects_uchars(&self, ty: CQualTypeId) -> bool {
        let types = self.ast_context.types@;
        types[ty.ctype.0 as int] matches CTypeKind::ConstantArray(elem, size) && types[elem.0 as int]
            is UChar
    }

    /// The translation of the string literal with the bytes `val`.
    pub open spec fn string_expr(&self, ctx: ExprContext, ty: CQualTypeId, val: Seq<u8>, width: u8) -> Result<
        WithStmtsView,
        TranslationErrorView,
    > {
        let bytes = string_bytes(self.ast_context.types[ty.ctype.0 as int], val, width);
        if ctx.is_static {
            let uchars = self.expects_uchars(ty);
            Ok(plain(array_of(Seq::new(bytes.len(), |i: int| byte_expr(bytes[i], uchars)))))
        } else {
            match result_view(self.rust_types[ty.ctype.0 as int]) {
                Err(e) => Err(e),
                Ok(target) => {
                    let mutbl = if ty.qualifiers.is_const {
                        Mutability::Immutable
                    } else {
                        Mutability::Mutable
                    };
                    let pointer = ExprView::Transmute(
                        bytes_ref_ty(bytes.len() as usize),
                        TyView::Ref(mutbl, Box::new(target)),
                        Box::new(ExprView::Lit(LitView::ByteStr(bytes))),
                        self.emit_no_std,
                    );
                    Ok(
                        WithStmtsView {
                            is_unsafe: true,
                            ..plain(ExprView::Unary(UnOp::Deref, Box::new(pointer)))
                        },
                    )
                },
            }
        }
    }

    /// The translation of the literal `kind` of the type `ty`.
    pub open spec fn literal_expr(&self, ctx: ExprContext, ty: CQualTypeId, kind: CLiteral) -> Result<
        WithStmtsView,
        TranslationErrorView,
    > {
        match kind {
            CLiteral::Integer(val, base) => match result_view(
                self.rust_types[ty.ctype.0 as int],
            ) {
                Ok(target) => Ok(plain(cast(ExprView::Lit(int_lit_of(val, base)), target))),
                Err(e) => Err(e),
            },
            CLiteral::Character(val) => Ok(plain(char_expr(val as u32))),
            CLiteral::Floating(val, spelling) => Ok(
                plain(
                    float_expr(
                        self.ast_context.types[ty.ctype.0 as int],
                        Self::float_text(val@, spelling@),
                    ),
                ),
            ),
            CLiteral::String(val, width) => self.string_expr(ctx, ty, val@, width),
        }
    }

    /// The feature that translating the literal makes the program need, if any.
    pub open spec fn literal_needs_feature(&self, ctx: ExprContext, ty: CQualTypeId, kind: CLiteral) -> bool {
        kind is String && !ctx.is_static && ctx.is_const && self.rust_types[ty.ctype.0 as int] is Ok
    }

    /// Whether translating the literal makes the program need the crate for `long double`.
    pub open spec fn literal_needs_f128(&self, ty: CQualTypeId, kind: CLiteral) -> bool {
        kind is Floating && self.ast_context.types[ty.ctype.0 as int] is LongDouble
    }

    /// The expression for the C character with the code `v`.
    pub fn convert_character(v: u32) -> (e: Expr)
        requires
            v != 0x8000_0000,
        ensures
            e.deep_view() == char_expr(v),
    {
        match char::from_u32(v) {
            Some(c) => {
                let mut segments: Vec<String> = Vec::new();
                segments.push(String::from_str("i32"));
                assert(segments.deep_view() =~= seq!["i32"@]);
                cast_expr(lit_expr(Lit::Char(c)), path_ty(segments))
            },
            None => {
                if v >= 0x8000_0000 {
                    let magnitude: u64 = 0x1_0000_0000 - (v as u64);
                    unary_expr(
                        UnOp::Neg,
                        lit_expr(Lit::Int(magnitude as u128, LitIntType::Signed(IntTy::I32))),
                    )
                } else {
                    lit_expr(Lit::Int(v as u128, LitIntType::Signed(IntTy::I32)))
                }
            },
        }
    }

    /// The expression for a floating-point literal of the type kind `kind`.
    pub fn convert_floating(kind: CTypeKind, text: String) -> (e: Expr)
        ensures
            e.deep_view() == float_expr(kind, text@),
    {
        match kind {
            CTypeKind::LongDouble => {
                let mut segments: Vec<String> = Vec::new();
                segments.push(String::from_str("f128"));
                segments.push(String::from_str("f128"));
                segments.push(String::from_str("new"));
                assert(segments.deep_view() =~= seq!["f128"@, "f128"@, "new"@]);
                let mut ident: Vec<String> = Vec::new();
                ident.push(text);
                assert(ident.deep_view() =~= seq![text@]);
                let mut args: Vec<Expr> = Vec::new();
                let arg = path_expr(ident);
                args.push(arg);
                assert(args.deep_view() =~= seq![arg.deep_view()]);
                call_expr(path_expr(segments), args)
            },
            CTypeKind::Double => lit_expr(Lit::Float(text, FloatTy::F64)),
            _ => lit_expr(Lit::Float(text, FloatTy::F32)),
        }
    }

    /// The bytes `val` cut or padded with zeros to the length `len`.
    pub fn resize_bytes(val: &Vec<u8>, len: usize) -> (bytes: Vec<u8>)
        ensures
            bytes@ == resized(val@, len as nat),
    {
        let mut bytes: Vec<u8> = Vec::new();
        let mut i: usize = 0;
        while i < len
            invariant
                i <= len,
                bytes@ == resized(val@, i as nat),
            decreases len - i,
        {
            let b: u8 = if i < val.len() {
                val[i]
            } else {
                0
            };
            bytes.push(b);
            assert(bytes@ =~= resized(val@, (i + 1) as nat));
            i += 1;
        }
        bytes
    }

    /// The array of the numbers of the bytes of a string in a static.
    pub fn byte_array(bytes: &Vec<u8>, expects_uchars: bool) -> (e: Expr)
        ensures
            e.deep_view() == array_of(
                Seq::new(bytes@.len(), |i: int| byte_expr(bytes@[i], expects_uchars)),
            ),
    {
        let mut vals: Vec<Expr> = Vec::new();
        let n = bytes.len();
        let mut i: usize = 0;
        while i < n
            invariant
                n == bytes.len(),
                i <= n,
                vals.len() == i,
                forall|k: int|
                    0 <= k < i ==> (#[trigger] vals.deep_view()[k]) == byte_expr(
                        bytes@[k],
                        expects_uchars,
                    ),
            decreases n - i,
        {
            let c = bytes[i];
            let val = if !expects_uchars && c >= 128 {
                let magnitude: u16 = 256 - (c as u16);
                unary_expr(UnOp::Neg, int_lit_expr(magnitude as u128))
            } else {
                int_lit_expr(c as u128)
            };
            let ghost before = vals;
            vals.push(val);
            proof {
                lemma_deep_push(before, vals, val);
            }
            i += 1;
        }
        assert(vals.deep_view() =~= Seq::new(
            bytes@.len(),
            |i: int| byte_expr(bytes@[i], expects_uchars),
        ));
        array_expr(vals)
    }

    /// Translates a C literal into a Rust expression.
    pub fn convert_literal(&mut self, ctx: ExprContext, ty: CQualTypeId, kind: &CLiteral) -> (r: Result<
        WithStmts,
        TranslationError,
    >)
        requires
            old(self).literal_translatable(ty, *kind),
        ensures
            result_view(r) == old(self).literal_expr(ctx, ty, *kind),
            same_program(*old(self), *final(self)),
            final(self).imports == old(self).imports,
            final(self).features.deep_view().to_set() == (if old(self).literal_needs_feature(
                ctx,
                ty,
                *kind,
            ) {
                old(self).features.deep_view().to_set().insert(const_transmute())
            } else {
                old(self).features.deep_view().to_set()
            }),
            final(self).extern_crates@.to_set() == (if old(self).literal_needs_f128(ty, *kind) {
                old(self).extern_crates@.to_set().insert(ExternCrate::F128)
            } else {
                old(self).extern_crates@.to_set()
            }),
    {
        match kind {
            CLiteral::Integer(val, base) => match self.mk_int_lit(ty, *val, *base) {
                Ok(e) => Ok(WithStmts::new_val(e)),
                Err(e) => Err(e),
            },
            CLiteral::Character(val) => {
                let v: u32 = #[verifier::truncate] (*val as u32);
                Ok(WithStmts::new_val(Self::convert_character(v)))
            },
            CLiteral::Floating(val, spelling) => {
                let text = if spelling.as_str().unicode_len() == 0 {
                    val.clone()
                } else {
                    spelling.clone()
                };
                let type_kind = self.ast_context.resolve_type(ty.ctype);
                match type_kind {
                    CTypeKind::LongDouble => {
                        self.use_crate(ExternCrate::F128);
                    },
                    _ => {},
                }
                Ok(WithStmts::new_val(Self::convert_floating(type_kind, text)))
            },
            CLiteral::String(val, width) => {
                let type_kind = self.ast_context.resolve_type(ty.ctype);
                let mut expects_uchars = false;
                let bytes = match type_kind {
                    CTypeKind::ConstantArray(elem, size) => {
                        match self.ast_context.resolve_type(elem) {
                            CTypeKind::UChar => {
                                expects_uchars = true;
                            },
                            _ => {},
                        }
                        Self::resize_bytes(val, size * (*width as usize))
                    },
                    _ => Self::resize_bytes(val, val.len() + (*width as usize)),
                };
                if ctx.is_static {
                    Ok(WithStmts::new_val(Self::byte_array(&bytes, expects_uchars)))
                } else {
                    let mut u8_path: Vec<String> = Vec::new();
                    u8_path.push(String::from_str("u8"));
                    assert(u8_path.deep_view() =~= seq!["u8"@]);
                    let source = ref_ty(
                        Mutability::Immutable,
                        array_ty(path_ty(u8_path), bytes.len()),
                    );
                    let mutbl = if ty.qualifiers.is_const {
                        Mutability::Immutable
                    } else {
                        Mutability::Mutable
                    };
                    match self.convert_type(ty.ctype) {
                        Err(e) => Err(e),
                        Ok(inner) => {
                            let target = ref_ty(mutbl, inner);
                            let byte_literal = lit_expr(Lit::ByteStr(bytes));
                            if ctx.is_const {
                                self.use_feature("const_transmute");
                            }
                            let pointer = transmute_expr(
                                source,
                                target,
                                byte_literal,
                                self.emit_no_std,
                            );
                            Ok(WithStmts::new_unsafe_val(unary_expr(UnOp::Deref, pointer)))
                        },
                    }
                }
            },
        }
    }

    /// Tests whether the enum of the type `enum_type_id` can be given the value `value`.
    pub fn can_translate_enum(&self, enum_type_id: CTypeId, value: i64) -> (ok: bool)
        ensures
            ok == self.enum_translatable(enum_type_id, value),
    {
        if enum_type_id.0 >= self.ast_context.types.len() {
            return false;
        }
        let def = match self.ast_context.types[enum_type_id.0] {
            CTypeKind::Enum(def) => def,
            _ => {
                return false;
            },
        };
        if def.0 >= self.ast_context.decls.len() {
            return false;
        }
        match &self.ast_context.decls[def.0] {
            CDeclKind::Enum { variants, integral_type } => {
                let ghost decls = self.ast_context.decls@;
                let n = variants.len();
                let mut i: usize = 0;
                assert(variants@.skip(0) =~= variants@);
                while i < n
                    invariant
                        n == variants.len(),
                        i <= n,
                        decls == self.ast_context.decls@,
                        enum_type_id.0 < self.ast_context.types.len(),
                        self.ast_context.types[enum_type_id.0 as int] == CTypeKind::Enum(def),
                        def.0 < decls.len(),
                        decls[def.0 as int] is Enum,
                        decls[def.0 as int]->Enum_variants@ == variants@,
                        variants_searchable(decls, variants@, value) == variants_searchable(
                            decls,
                            variants@.skip(i as int),
                            value,
                        ),
                        variant_with_value(decls, variants@, value) == variant_with_value(
                            decls,
                            variants@.skip(i as int),
                            value,
                        ),
                    decreases n - i,
                {
                    assert(variants@.skip(i as int).skip(1) =~= variants@.skip(i + 1));
                    assert(variants@.skip(i as int)[0] == variants@[i as int]);
                    let id = variants[i];
                    if id.0 >= self.ast_context.decls.len() {
                        return false;
                    }
                    let hit = match &self.ast_context.decls[id.0] {
                        CDeclKind::EnumConstant { value: v } => match v {
                            ConstIntExpr::I(x) => *x == value,
                            ConstIntExpr::U(x) => *x == #[verifier::truncate] (value as u64),
                        },
                        _ => {
                            return false;
                        },
                    };
                    assert(hit == has_value(constant_value(decls, id)->0, value));
                    if hit {
                        return id.0 < self.decl_names.len() && self.decl_names[id.0].is_some();
                    }
                    i += 1;
                }
                match integral_type {
                    Some(underlying) => underlying.ctype.0 < self.ast_context.types.len()
                        && enum_type_id.0 < self.rust_types.len()
                        && self.rust_types[enum_type_id.0].is_ok(),
                    None => false,
                }
            },
            _ => false,
        }
    }

    /// Tests whether the literal `kind` of the type `ty` can be translated.
    pub fn can_translate_literal(&self, ty: CQualTypeId, kind: &CLiteral) -> (ok: bool)
        ensures
            ok == self.literal_translatable(ty, *kind),
    {
        if ty.ctype.0 >= self.ast_context.types.len() || ty.ctype.0 >= self.rust_types.len() {
            return false;
        }
        let type_kind = self.ast_context.types[ty.ctype.0];
        match kind {
            CLiteral::Integer(val, base) => true,
            CLiteral::Character(val) => {
                let v: u32 = #[verifier::truncate] (*val as u32);
                v != 0x8000_0000
            },
            CLiteral::Floating(val, text) => match type_kind {
                CTypeKind::LongDouble => true,
                CTypeKind::Double => true,
                CTypeKind::Float => true,
                _ => false,
            },
            CLiteral::String(val, width) => match type_kind {
                CTypeKind::ConstantArray(elem, size) => elem.0 < self.ast_context.types.len()
                    && size.checked_mul(*width as usize).is_some(),
                _ => val.len().checked_add(*width as usize).is_some(),
            },
        }
    }
}

} // verus!

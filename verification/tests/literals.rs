use c2rust_core::translator::c_ast::{
    CDeclId, CDeclKind, CExprId, CExprKind, CLiteral, CQualTypeId, CTypeId, CTypeKind, CastKind,
    ConstIntExpr, ExprContext, IntBase, Qualifiers, TypedAstContext,
};
use c2rust_core::translator::init_list::InitParts;
use c2rust_core::translator::literals::{
    signed_int_expr, ExternCrate, Import, Translation, TranslationError,
};
use c2rust_core::translator::rust_ast::{
    Expr, FloatTy, IntTy, Lit, LitIntType, Mutability, Stmt, Ty, UnOp, WithStmts,
};

const INT: usize = 0;
const UINT: usize = 1;
const ULONG: usize = 2;
const VOID: usize = 3;
const ENUM_INT: usize = 4;
const ENUM_UINT: usize = 5;
const ENUM_ULONG: usize = 6;
const DOUBLE: usize = 7;
const FLOAT: usize = 8;
const LONG_DOUBLE: usize = 9;
const CHAR: usize = 10;
const UCHAR: usize = 11;
const CHARS_4: usize = 12;
const UCHARS_3: usize = 13;
const CHAR_PTR: usize = 14;
const INTS_4: usize = 15;
const STRUCT_PLAIN: usize = 16;
const STRUCT_SPLIT: usize = 17;
const UNION: usize = 18;
const VECTOR: usize = 19;

const D_ENUM_INT: usize = 0;
const D_RED: usize = 1;
const D_GREEN: usize = 2;
const D_ENUM_UINT: usize = 3;
const D_ENUM_ULONG: usize = 4;
const D_STRUCT_PLAIN: usize = 5;
const D_STRUCT_SPLIT: usize = 6;
const D_UNION: usize = 7;
const D_FIELD: usize = 8;
const D_BIG: usize = 9;

fn q(ctype: usize) -> CQualTypeId {
    CQualTypeId {
        qualifiers: Qualifiers { is_const: false, is_restrict: false, is_volatile: false },
        ctype: CTypeId(ctype),
    }
}

fn q_const(ctype: usize) -> CQualTypeId {
    CQualTypeId {
        qualifiers: Qualifiers { is_const: true, is_restrict: false, is_volatile: false },
        ctype: CTypeId(ctype),
    }
}

fn path(segments: &[&str]) -> Ty {
    Ty::Path(segments.iter().map(|s| s.to_string()).collect())
}

fn name(segments: &[&str]) -> Expr {
    Expr::Path(segments.iter().map(|s| s.to_string()).collect())
}

fn num(value: u128) -> Expr {
    Expr::Lit(Lit::Int(value, LitIntType::Unsuffixed))
}

fn neg(value: Expr) -> Expr {
    Expr::Unary(UnOp::Neg, Box::new(value))
}

fn cast(value: Expr, ty: Ty) -> Expr {
    Expr::Cast(Box::new(value), ty)
}

fn val(e: Expr) -> WithStmts {
    WithStmts { stmts: vec![], val: e, is_unsafe: false }
}

fn err(text: &str) -> TranslationError {
    TranslationError::Generic(text.to_string())
}

fn ctx(is_static: bool, is_const: bool) -> ExprContext {
    ExprContext { used: false, is_static, is_const }
}

fn translation() -> Translation {
    let types = vec![
        CTypeKind::Int,
        CTypeKind::UInt,
        CTypeKind::ULong,
        CTypeKind::Void,
        CTypeKind::Enum(CDeclId(D_ENUM_INT)),
        CTypeKind::Enum(CDeclId(D_ENUM_UINT)),
        CTypeKind::Enum(CDeclId(D_ENUM_ULONG)),
        CTypeKind::Double,
        CTypeKind::Float,
        CTypeKind::LongDouble,
        CTypeKind::Char,
        CTypeKind::UChar,
        CTypeKind::ConstantArray(CTypeId(CHAR), 4),
        CTypeKind::ConstantArray(CTypeId(UCHAR), 3),
        CTypeKind::Pointer(q(CHAR)),
        CTypeKind::ConstantArray(CTypeId(INT), 4),
        CTypeKind::Struct(CDeclId(D_STRUCT_PLAIN)),
        CTypeKind::Struct(CDeclId(D_STRUCT_SPLIT)),
        CTypeKind::Union(CDeclId(D_UNION)),
        CTypeKind::Vector(q(INT), 4),
    ];
    let rust_types = vec![
        Ok(path(&["libc", "c_int"])),
        Ok(path(&["libc", "c_uint"])),
        Ok(path(&["libc", "c_ulong"])),
        Err(err("void has no value")),
        Ok(path(&["Color"])),
        Ok(path(&["Flags"])),
        Ok(path(&["Wide"])),
        Ok(path(&["libc", "c_double"])),
        Ok(path(&["libc", "c_float"])),
        Ok(path(&["f128", "f128"])),
        Ok(path(&["libc", "c_char"])),
        Ok(path(&["libc", "c_uchar"])),
        Ok(Ty::Array(Box::new(path(&["libc", "c_char"])), 4)),
        Ok(Ty::Array(Box::new(path(&["libc", "c_uchar"])), 3)),
        Ok(Ty::Ptr(Mutability::Mutable, Box::new(path(&["libc", "c_char"])))),
        Ok(Ty::Array(Box::new(path(&["libc", "c_int"])), 4)),
        Ok(path(&["Plain"])),
        Ok(path(&["Split"])),
        Ok(path(&["U"])),
        Err(err("no vector types")),
    ];
    let decls = vec![
        CDeclKind::Enum {
            variants: vec![CDeclId(D_RED), CDeclId(D_GREEN), CDeclId(D_BIG)],
            integral_type: Some(q(INT)),
        },
        CDeclKind::EnumConstant { value: ConstIntExpr::I(-1) },
        CDeclKind::EnumConstant { value: ConstIntExpr::U(2) },
        CDeclKind::Enum { variants: vec![], integral_type: Some(q(UINT)) },
        CDeclKind::Enum { variants: vec![], integral_type: Some(q(ULONG)) },
        CDeclKind::Struct { has_inner_struct_decl: false },
        CDeclKind::Struct { has_inner_struct_decl: true },
        CDeclKind::Union,
        CDeclKind::Field { typ: q(INT) },
        CDeclKind::EnumConstant { value: ConstIntExpr::U(u64::MAX - 4) },
    ];
    let decl_names = vec![
        Some("Color".to_string()),
        Some("RED".to_string()),
        Some("GREEN".to_string()),
        Some("Flags".to_string()),
        Some("Wide".to_string()),
        Some("Plain".to_string()),
        Some("Split".to_string()),
        Some("U".to_string()),
        Some("as_int".to_string()),
        Some("BIG".to_string()),
    ];
    let exprs = vec![
        CExprKind::Literal(q(INT), CLiteral::Integer(1, IntBase::Dec)),
        CExprKind::Literal(q(CHARS_4), CLiteral::String(vec![b'a'], 1)),
        CExprKind::ImplicitCast(q(CHAR_PTR), CExprId(0), CastKind::ConstCast),
        CExprKind::ImplicitCast(q(VOID), CExprId(0), CastKind::ConstCast),
        CExprKind::ImplicitCast(q(CHAR_PTR), CExprId(0), CastKind::Other),
        CExprKind::Other,
    ];
    Translation {
        ast_context: TypedAstContext { types, decls, exprs },
        rust_types,
        decl_names,
        cur_file: None,
        emit_no_std: false,
        imports: vec![],
        features: vec![],
        extern_crates: vec![],
    }
}

#[test]
fn integer_literals_keep_their_base() {
    let t = translation();
    assert_eq!(
        t.mk_int_lit(q(INT), 42, IntBase::Dec),
        Ok(cast(num(42), path(&["libc", "c_int"])))
    );
    assert_eq!(
        t.mk_int_lit(q(UINT), 0xff, IntBase::Hex),
        Ok(cast(Expr::Lit(Lit::FloatUnsuffixed("0xff".to_string())), path(&["libc", "c_uint"])))
    );
    assert_eq!(
        t.mk_int_lit(q(INT), 0o17, IntBase::Oct),
        Ok(cast(Expr::Lit(Lit::FloatUnsuffixed("0o17".to_string())), path(&["libc", "c_int"])))
    );
    assert_eq!(
        t.mk_int_lit(q(ULONG), 0, IntBase::Hex),
        Ok(cast(Expr::Lit(Lit::FloatUnsuffixed("0x0".to_string())), path(&["libc", "c_ulong"])))
    );
    assert_eq!(
        t.mk_int_lit(q(ULONG), u64::MAX, IntBase::Dec),
        Ok(cast(num(18446744073709551615), path(&["libc", "c_ulong"])))
    );
    assert_eq!(
        t.mk_int_lit(q(ULONG), u64::MAX, IntBase::Hex),
        Ok(cast(
            Expr::Lit(Lit::FloatUnsuffixed("0xffffffffffffffff".to_string())),
            path(&["libc", "c_ulong"])
        ))
    );
    assert_eq!(t.mk_int_lit(q(VOID), 1, IntBase::Dec), Err(err("void has no value")));
    assert_eq!(t.convert_type(CTypeId(CHAR_PTR)), Ok(Ty::Ptr(Mutability::Mutable, Box::new(path(&["libc", "c_char"])))));
    assert_eq!(t.convert_type(CTypeId(VECTOR)), Err(err("no vector types")));
}

#[test]
fn enum_value_is_named_where_a_constant_has_it() {
    let mut t = translation();
    assert_eq!(t.find_variant(CDeclId(D_ENUM_INT), 2), Some(CDeclId(D_GREEN)));
    assert_eq!(t.find_variant(CDeclId(D_ENUM_INT), 3), None);
    assert_eq!(t.enum_for_i64(CTypeId(ENUM_INT), -1), name(&["RED"]));
    assert_eq!(t.enum_for_i64(CTypeId(ENUM_INT), 2), name(&["GREEN"]));
    assert_eq!(t.enum_for_i64(CTypeId(ENUM_INT), -5), name(&["BIG"]));
    assert_eq!(t.imports, vec![]);
    t.cur_file = Some(3);
    assert_eq!(t.enum_for_i64(CTypeId(ENUM_INT), 2), name(&["GREEN"]));
    assert_eq!(
        t.imports,
        vec![Import { file: 3, decl: CDeclId(D_GREEN), name: "GREEN".to_string() }]
    );
    assert_eq!(t.enum_for_i64(CTypeId(ENUM_INT), 7), cast(num(7), path(&["Color"])));
    assert_eq!(t.imports.len(), 1);
}

#[test]
fn enum_value_without_a_constant_is_cast_from_a_number() {
    let mut t = translation();
    assert_eq!(t.enum_for_i64(CTypeId(ENUM_INT), 7), cast(num(7), path(&["Color"])));
    assert_eq!(t.enum_for_i64(CTypeId(ENUM_INT), -7), cast(neg(num(7)), path(&["Color"])));
    assert_eq!(t.enum_for_i64(CTypeId(ENUM_UINT), -1), cast(num(4294967295), path(&["Flags"])));
    assert_eq!(t.enum_for_i64(CTypeId(ENUM_UINT), 1 << 32), cast(num(0), path(&["Flags"])));
    assert_eq!(
        t.enum_for_i64(CTypeId(ENUM_ULONG), -1),
        cast(num(18446744073709551615), path(&["Wide"]))
    );
    assert_eq!(t.enum_for_i64(CTypeId(ENUM_ULONG), 5), cast(num(5), path(&["Wide"])));
    assert_eq!(signed_int_expr(0), num(0));
    assert_eq!(signed_int_expr(i64::MAX), num(9223372036854775807));
    assert_eq!(signed_int_expr(i64::MIN), neg(num(9223372036854775808)));
}

#[test]
fn character_literals() {
    let mut t = translation();
    let i32_ty = path(&["i32"]);
    assert_eq!(
        t.convert_literal(ctx(false, false), q(INT), &CLiteral::Character(0x41)),
        Ok(val(cast(Expr::Lit(Lit::Char('A')), i32_ty)))
    );
    assert_eq!(
        t.convert_literal(ctx(false, false), q(INT), &CLiteral::Character(0x1_0000_0041)),
        Ok(val(cast(Expr::Lit(Lit::Char('A')), path(&["i32"]))))
    );
    assert_eq!(
        t.convert_literal(ctx(false, false), q(INT), &CLiteral::Character(0x10FFFF)),
        Ok(val(cast(Expr::Lit(Lit::Char('\u{10FFFF}')), path(&["i32"]))))
    );
    assert_eq!(
        t.convert_literal(ctx(false, false), q(INT), &CLiteral::Character(0xD800)),
        Ok(val(Expr::Lit(Lit::Int(0xD800, LitIntType::Signed(IntTy::I32)))))
    );
    assert_eq!(
        t.convert_literal(ctx(false, false), q(INT), &CLiteral::Character(0x110000)),
        Ok(val(Expr::Lit(Lit::Int(0x110000, LitIntType::Signed(IntTy::I32)))))
    );
    assert_eq!(
        t.convert_literal(ctx(false, false), q(INT), &CLiteral::Character(0xFFFF_FFFF)),
        Ok(val(neg(Expr::Lit(Lit::Int(1, LitIntType::Signed(IntTy::I32))))))
    );
    assert_eq!(
        t.convert_literal(ctx(false, false), q(INT), &CLiteral::Character(0x8000_0001)),
        Ok(val(neg(Expr::Lit(Lit::Int(0x7FFF_FFFF, LitIntType::Signed(IntTy::I32))))))
    );
    assert_eq!(Translation::convert_character(0x7FFF_FFFF), Expr::Lit(Lit::Int(0x7FFF_FFFF, LitIntType::Signed(IntTy::I32))));
    assert!(t.features.is_empty() && t.extern_crates.is_empty() && t.imports.is_empty());
}

#[test]
fn integer_literal_through_convert_literal() {
    let mut t = translation();
    assert_eq!(
        t.convert_literal(ctx(false, false), q(UINT), &CLiteral::Integer(255, IntBase::Hex)),
        Ok(val(cast(Expr::Lit(Lit::FloatUnsuffixed("0xff".to_string())), path(&["libc", "c_uint"]))))
    );
    assert_eq!(
        t.convert_literal(ctx(false, false), q(VOID), &CLiteral::Integer(255, IntBase::Hex)),
        Err(err("void has no value"))
    );
}

#[test]
fn floating_literals_take_the_spelling_or_the_decimal_text() {
    let mut t = translation();
    let lit = CLiteral::Floating("2.5".to_string(), "".to_string());
    let spelled = CLiteral::Floating("2.5".to_string(), "2.50e0".to_string());
    assert_eq!(
        t.convert_literal(ctx(false, false), q(DOUBLE), &lit),
        Ok(val(Expr::Lit(Lit::Float("2.5".to_string(), FloatTy::F64))))
    );
    assert_eq!(
        t.convert_literal(ctx(false, false), q(DOUBLE), &spelled),
        Ok(val(Expr::Lit(Lit::Float("2.50e0".to_string(), FloatTy::F64))))
    );
    assert_eq!(
        t.convert_literal(ctx(false, false), q(FLOAT), &lit),
        Ok(val(Expr::Lit(Lit::Float("2.5".to_string(), FloatTy::F32))))
    );
    assert!(t.extern_crates.is_empty());
    assert_eq!(
        t.convert_literal(ctx(false, false), q(LONG_DOUBLE), &spelled),
        Ok(val(Expr::Call(
            Box::new(name(&["f128", "f128", "new"])),
            vec![name(&["2.50e0"])]
        )))
    );
    assert!(t.extern_crates.contains(&ExternCrate::F128));
    assert!(t.features.is_empty());
}

#[test]
fn string_literals_in_statics_are_arrays_of_numbers() {
    let mut t = translation();
    let lit = CLiteral::String(vec![b'h', 0xFF, 0x80], 1);
    assert_eq!(
        t.convert_literal(ctx(true, false), q(CHARS_4), &lit),
        Ok(val(Expr::Array(vec![num(104), neg(num(1)), neg(num(128)), num(0)])))
    );
    assert_eq!(
        t.convert_literal(ctx(true, false), q(UCHARS_3), &lit),
        Ok(val(Expr::Array(vec![num(104), num(255), num(128)])))
    );
    let long = CLiteral::String(vec![1, 2, 3, 4, 5], 1);
    assert_eq!(
        t.convert_literal(ctx(true, true), q(UCHARS_3), &long),
        Ok(val(Expr::Array(vec![num(1), num(2), num(3)])))
    );
    let wide = CLiteral::String(vec![b'a', 0], 2);
    assert_eq!(
        t.convert_literal(ctx(true, false), q(CHAR_PTR), &wide),
        Ok(val(Expr::Array(vec![num(97), num(0), num(0), num(0)])))
    );
    assert_eq!(
        t.convert_literal(ctx(true, false), q(VOID), &CLiteral::String(vec![200], 1)),
        Ok(val(Expr::Array(vec![neg(num(56)), num(0)])))
    );
    assert!(t.features.is_empty());
    assert_eq!(Translation::resize_bytes(&vec![1, 2, 3], 0), Vec::<u8>::new());
}

fn bytes_ref(len: usize) -> Ty {
    Ty::Ref(Mutability::Immutable, Box::new(Ty::Array(Box::new(path(&["u8"])), len)))
}

#[test]
fn string_literals_elsewhere_are_reinterpreted_bytes() {
    let mut t = translation();
    let lit = CLiteral::String(vec![b'h', b'i'], 1);
    let target = Ty::Ref(
        Mutability::Mutable,
        Box::new(Ty::Ptr(Mutability::Mutable, Box::new(path(&["libc", "c_char"])))),
    );
    assert_eq!(
        t.convert_literal(ctx(false, false), q(CHAR_PTR), &lit),
        Ok(WithStmts {
            stmts: vec![],
            val: Expr::Unary(
                UnOp::Deref,
                Box::new(Expr::Transmute(
                    bytes_ref(3),
                    target,
                    Box::new(Expr::Lit(Lit::ByteStr(vec![b'h', b'i', 0]))),
                    false
                ))
            ),
            is_unsafe: true,
        })
    );
    assert!(t.features.is_empty());
    t.emit_no_std = true;
    assert_eq!(
        t.convert_literal(ctx(false, true), q_const(CHARS_4), &lit),
        Ok(WithStmts {
            stmts: vec![],
            val: Expr::Unary(
                UnOp::Deref,
                Box::new(Expr::Transmute(
                    bytes_ref(4),
                    Ty::Ref(
                        Mutability::Immutable,
                        Box::new(Ty::Array(Box::new(path(&["libc", "c_char"])), 4))
                    ),
                    Box::new(Expr::Lit(Lit::ByteStr(vec![b'h', b'i', 0, 0]))),
                    true
                ))
            ),
            is_unsafe: true,
        })
    );
    assert!(t.features.contains(&"const_transmute".to_string()));
    let mut failing = translation();
    assert_eq!(
        failing.convert_literal(ctx(false, true), q(VOID), &lit),
        Err(err("void has no value"))
    );
    assert!(failing.features.is_empty());
}

fn parts(values: Vec<Result<WithStmts, TranslationError>>) -> InitParts {
    InitParts { values, default: Err(err("no default")), aggregate: Err(err("no aggregate")) }
}

fn ids(list: &[usize]) -> Vec<CExprId> {
    list.iter().map(|i| CExprId(*i)).collect()
}

#[test]
fn array_initializer_is_padded_with_the_default() {
    let t = translation();
    let stmt = Stmt::Semi(name(&["f"]));
    let given = InitParts {
        values: vec![
            Ok(val(num(1))),
            Ok(WithStmts { stmts: vec![Stmt::Semi(name(&["f"]))], val: num(2), is_unsafe: true }),
        ],
        default: Ok(WithStmts { stmts: vec![Stmt::Expr(num(9))], val: num(0), is_unsafe: false }),
        aggregate: Err(err("unused")),
    };
    assert_eq!(
        t.convert_init_list(ctx(false, false), q(INTS_4), &ids(&[0, 5]), None, given),
        Ok(WithStmts {
            stmts: vec![stmt, Stmt::Expr(num(9)), Stmt::Expr(num(9))],
            val: Expr::Array(vec![num(1), num(2), num(0), num(0)]),
            is_unsafe: true,
        })
    );
    let full = parts(vec![Ok(val(num(1))), Ok(val(num(2))), Ok(val(num(3))), Ok(val(num(4)))]);
    assert_eq!(
        t.convert_init_list(ctx(false, false), q(INTS_4), &ids(&[0, 0, 0, 0]), None, full),
        Ok(val(Expr::Array(vec![num(1), num(2), num(3), num(4)])))
    );
    let short = parts(vec![Ok(val(num(1)))]);
    assert_eq!(
        t.convert_init_list(ctx(false, false), q(INTS_4), &ids(&[0]), None, short),
        Err(err("no default"))
    );
    let none = InitParts { values: vec![], default: Ok(val(num(0))), aggregate: Err(err("unused")) };
    assert_eq!(
        t.convert_init_list(ctx(false, false), q(UCHARS_3), &ids(&[]), None, none),
        Ok(val(Expr::Array(vec![num(0), num(0), num(0)])))
    );
}

#[test]
fn array_initializer_writes_out_const_casts_and_stops_at_the_first_error() {
    let t = translation();
    let ptr = Ty::Ptr(Mutability::Mutable, Box::new(path(&["libc", "c_char"])));
    let given = InitParts {
        values: vec![Ok(val(name(&["a"]))), Ok(val(name(&["b"]))), Ok(val(name(&["c"])))],
        default: Ok(val(num(0))),
        aggregate: Err(err("unused")),
    };
    assert_eq!(
        t.convert_init_list(ctx(false, false), q(INTS_4), &ids(&[2, 4, 0]), None, given),
        Ok(val(Expr::Array(vec![cast(name(&["a"]), ptr), name(&["b"]), name(&["c"]), num(0)])))
    );
    let bad_cast = InitParts {
        values: vec![Ok(val(name(&["a"]))), Err(err("later"))],
        default: Ok(val(num(0))),
        aggregate: Err(err("unused")),
    };
    assert_eq!(
        t.convert_init_list(ctx(false, false), q(INTS_4), &ids(&[3, 0]), None, bad_cast),
        Err(err("void has no value"))
    );
    let bad_value = InitParts {
        values: vec![Err(err("first")), Err(err("second"))],
        default: Err(err("third")),
        aggregate: Err(err("unused")),
    };
    assert_eq!(
        t.convert_init_list(ctx(false, false), q(INTS_4), &ids(&[3, 0]), None, bad_value),
        Err(err("first"))
    );
    assert_eq!(
        t.convert_element(CExprId(3), Err(err("value"))),
        Err(err("value"))
    );
}

#[test]
fn array_of_characters_takes_a_single_string_as_it_is() {
    let t = translation();
    let given = parts(vec![Ok(val(name(&["text"])))]);
    assert_eq!(
        t.convert_init_list(ctx(false, false), q(CHARS_4), &ids(&[1]), None, given),
        Ok(val(name(&["text"])))
    );
    let failed = parts(vec![Err(err("string"))]);
    assert_eq!(
        t.convert_init_list(ctx(false, false), q(CHARS_4), &ids(&[1]), None, failed),
        Err(err("string"))
    );
}

#[test]
fn struct_initializer_is_wrapped_where_the_struct_is_split() {
    let t = translation();
    let lit = || InitParts {
        values: vec![],
        default: Err(err("unused")),
        aggregate: Ok(WithStmts { stmts: vec![], val: name(&["inner"]), is_unsafe: true }),
    };
    assert_eq!(
        t.convert_init_list(ctx(false, false), q(STRUCT_PLAIN), &ids(&[]), None, lit()),
        Ok(WithStmts { stmts: vec![], val: name(&["inner"]), is_unsafe: true })
    );
    assert_eq!(
        t.convert_init_list(ctx(false, false), q(STRUCT_SPLIT), &ids(&[]), None, lit()),
        Ok(WithStmts {
            stmts: vec![],
            val: Expr::Call(Box::new(name(&["Split"])), vec![name(&["inner"])]),
            is_unsafe: true,
        })
    );
    assert_eq!(
        t.convert_init_list(ctx(false, false), q(STRUCT_SPLIT), &ids(&[]), None, parts(vec![])),
        Err(err("no aggregate"))
    );
    assert!(t.ast_context.has_inner_struct_decl(CDeclId(D_STRUCT_SPLIT)));
    assert!(!t.ast_context.has_inner_struct_decl(CDeclId(D_STRUCT_PLAIN)));
    assert!(!t.ast_context.has_inner_struct_decl(CDeclId(D_UNION)));
}

#[test]
fn union_initializer_sets_one_field() {
    let t = translation();
    let field = Some(CDeclId(D_FIELD));
    let literal = |v: Expr| Expr::Struct(vec!["U".to_string()], "as_int".to_string(), Box::new(v));
    assert_eq!(
        t.convert_init_list(
            ctx(false, false),
            q(UNION),
            &ids(&[0, 5]),
            field,
            parts(vec![Ok(val(num(1))), Err(err("second"))])
        ),
        Ok(val(literal(num(1))))
    );
    let empty = InitParts {
        values: vec![],
        default: Ok(WithStmts { stmts: vec![Stmt::Expr(num(3))], val: num(0), is_unsafe: true }),
        aggregate: Err(err("unused")),
    };
    assert_eq!(
        t.convert_union_literal(ctx(false, false), CDeclId(D_UNION), &ids(&[]), q(UNION), field, empty),
        Ok(WithStmts { stmts: vec![Stmt::Expr(num(3))], val: literal(num(0)), is_unsafe: true })
    );
    assert_eq!(
        t.convert_union_literal(
            ctx(false, false),
            CDeclId(D_UNION),
            &ids(&[0]),
            q(UNION),
            field,
            parts(vec![Err(err("first"))])
        ),
        Err(err("first"))
    );
    assert_eq!(
        t.convert_union_literal(ctx(false, false), CDeclId(D_UNION), &ids(&[]), q(UNION), field, parts(vec![])),
        Err(err("no default"))
    );
}

#[test]
fn pointer_character_and_vector_initializers() {
    let t = translation();
    assert_eq!(
        t.convert_init_list(
            ctx(false, false),
            q(CHAR_PTR),
            &ids(&[0, 5]),
            None,
            parts(vec![Ok(val(num(1))), Ok(val(num(2)))])
        ),
        Ok(val(num(1)))
    );
    assert_eq!(
        t.convert_init_list(ctx(false, false), q(CHAR), &ids(&[0]), None, parts(vec![Err(err("c"))])),
        Err(err("c"))
    );
    let vector = InitParts {
        values: vec![Ok(val(num(1)))],
        default: Err(err("unused")),
        aggregate: Ok(val(name(&["simd"]))),
    };
    assert_eq!(
        t.convert_init_list(ctx(false, false), q(VECTOR), &ids(&[0]), None, vector),
        Ok(val(name(&["simd"])))
    );
}

#[test]
fn other_types_take_no_initializer_list() {
    let t = translation();
    assert_eq!(
        t.convert_init_list(ctx(false, false), q(INT), &ids(&[0]), None, parts(vec![Ok(val(num(1)))])),
        Err(TranslationError::InitListNotImplemented(CTypeKind::Int))
    );
    assert_eq!(
        t.convert_init_list(ctx(false, false), q(ENUM_INT), &ids(&[]), None, parts(vec![])),
        Err(TranslationError::InitListNotImplemented(CTypeKind::Enum(CDeclId(D_ENUM_INT))))
    );
}

#[test]
fn needs_of_the_program_are_recorded() {
    let mut t = translation();
    t.use_feature("const_transmute");
    t.use_crate(ExternCrate::Libc);
    t.add_import(1, CDeclId(D_RED), "RED".to_string());
    assert!(t.features.contains(&"const_transmute".to_string()));
    assert!(t.extern_crates.contains(&ExternCrate::Libc));
    assert!(!t.extern_crates.contains(&ExternCrate::F128));
    assert_eq!(t.imports, vec![Import { file: 1, decl: CDeclId(D_RED), name: "RED".to_string() }]);
    assert_eq!(ctx(true, false).used(), ExprContext { used: true, is_static: true, is_const: false });
    assert_eq!(t.ast_context.resolve_type(CTypeId(UCHAR)), CTypeKind::UChar);
}

fn shortest_decimal(value: f64) -> String {
    let mut bytes: Vec<u8> = vec![];
    dtoa::write(&mut bytes, value).unwrap();
    String::from_utf8(bytes).unwrap()
}

#[test]
fn floating_literal_without_spelling_is_written_as_its_shortest_decimal() {
    let mut t = translation();
    assert_eq!(shortest_decimal(2.5), "2.5");
    assert_eq!(shortest_decimal(0.1), "0.1");
    assert_eq!(shortest_decimal(1e30), "1e30");
    let lit = CLiteral::Floating(shortest_decimal(0.1), String::new());
    assert_eq!(
        t.convert_literal(ctx(false, false), q(DOUBLE), &lit),
        Ok(val(Expr::Lit(Lit::Float("0.1".to_string(), FloatTy::F64))))
    );
}

#[test]
fn enum_values_that_cannot_be_translated_are_told_apart() {
    let mut t = translation();
    assert!(t.can_translate_enum(CTypeId(ENUM_INT), 2));
    assert!(t.can_translate_enum(CTypeId(ENUM_INT), 7));
    assert!(t.can_translate_enum(CTypeId(ENUM_UINT), -1));
    assert!(!t.can_translate_enum(CTypeId(INT), 2));
    assert!(!t.can_translate_enum(CTypeId(99), 2));
    t.decl_names[D_GREEN] = None;
    assert!(!t.can_translate_enum(CTypeId(ENUM_INT), 2));
    assert!(t.can_translate_enum(CTypeId(ENUM_INT), -1));
    t.rust_types[ENUM_INT] = Err(err("no type"));
    assert!(t.can_translate_enum(CTypeId(ENUM_INT), -1));
    assert!(!t.can_translate_enum(CTypeId(ENUM_INT), 7));
    t.ast_context.decls[D_ENUM_UINT] = CDeclKind::Enum { variants: vec![], integral_type: None };
    assert!(!t.can_translate_enum(CTypeId(ENUM_UINT), 1));
    t.ast_context.decls[D_ENUM_ULONG] = CDeclKind::Enum {
        variants: vec![CDeclId(D_FIELD), CDeclId(D_RED)],
        integral_type: Some(q(ULONG)),
    };
    assert!(!t.can_translate_enum(CTypeId(ENUM_ULONG), -1));
    t.ast_context.decls[D_ENUM_ULONG] = CDeclKind::Enum {
        variants: vec![CDeclId(D_RED), CDeclId(D_FIELD)],
        integral_type: Some(q(ULONG)),
    };
    assert!(t.can_translate_enum(CTypeId(ENUM_ULONG), -1));
    assert!(!t.can_translate_enum(CTypeId(ENUM_ULONG), 0));
    t.ast_context.decls[D_ENUM_ULONG] = CDeclKind::Enum {
        variants: vec![CDeclId(77)],
        integral_type: Some(q(ULONG)),
    };
    assert!(!t.can_translate_enum(CTypeId(ENUM_ULONG), 0));
}

#[test]
fn literals_that_cannot_be_translated_are_told_apart() {
    let t = translation();
    assert!(t.can_translate_literal(q(INT), &CLiteral::Integer(1, IntBase::Dec)));
    assert!(!t.can_translate_literal(q(99), &CLiteral::Integer(1, IntBase::Dec)));
    assert!(t.can_translate_literal(q(INT), &CLiteral::Character(0x7FFF_FFFF)));
    assert!(t.can_translate_literal(q(INT), &CLiteral::Character(0x8000_0001)));
    assert!(!t.can_translate_literal(q(INT), &CLiteral::Character(0x8000_0000)));
    assert!(!t.can_translate_literal(q(INT), &CLiteral::Character(0x3_8000_0000)));
    let float = CLiteral::Floating("1.5".to_string(), String::new());
    assert!(t.can_translate_literal(q(DOUBLE), &float));
    assert!(t.can_translate_literal(q(FLOAT), &float));
    assert!(t.can_translate_literal(q(LONG_DOUBLE), &float));
    assert!(!t.can_translate_literal(q(INT), &float));
    let text = CLiteral::String(vec![b'a'], 4);
    assert!(t.can_translate_literal(q(CHARS_4), &text));
    assert!(t.can_translate_literal(q(CHAR_PTR), &text));
    let mut huge = translation();
    huge.ast_context.types[CHARS_4] = CTypeKind::ConstantArray(CTypeId(CHAR), usize::MAX / 2);
    assert!(!huge.can_translate_literal(q(CHARS_4), &text));
    huge.ast_context.types[CHARS_4] = CTypeKind::ConstantArray(CTypeId(99), 4);
    assert!(!huge.can_translate_literal(q(CHARS_4), &text));
}

#[test]
fn initializer_lists_that_cannot_be_translated_are_told_apart() {
    let t = translation();
    let one = || parts(vec![Ok(val(num(1)))]);
    assert!(t.can_translate_init_list(q(INTS_4), &ids(&[0]), None, &one()));
    assert!(!t.can_translate_init_list(q(INTS_4), &ids(&[0, 0]), None, &one()));
    assert!(!t.can_translate_init_list(q(INTS_4), &ids(&[99]), None, &one()));
    assert!(!t.can_translate_init_list(q(99), &ids(&[0]), None, &one()));
    let five = parts(vec![Ok(val(num(1))), Ok(val(num(1))), Ok(val(num(1))), Ok(val(num(1))), Ok(val(num(1)))]);
    assert!(!t.can_translate_init_list(q(INTS_4), &ids(&[0, 0, 0, 0, 0]), None, &five));
    assert!(t.can_translate_init_list(q(UCHARS_3), &ids(&[1]), None, &one()));
    let mut narrow = translation();
    narrow.ast_context.types[UCHARS_3] = CTypeKind::ConstantArray(CTypeId(UCHAR), 0);
    assert!(narrow.can_translate_init_list(q(UCHARS_3), &ids(&[1]), None, &one()));
    assert!(!narrow.can_translate_init_list(q(UCHARS_3), &ids(&[0]), None, &one()));
    narrow.rust_types.truncate(CHAR_PTR);
    assert!(!narrow.can_translate_init_list(q(CHARS_4), &ids(&[2]), None, &one()));
    assert!(narrow.can_translate_init_list(q(CHARS_4), &ids(&[4]), None, &one()));
    assert!(t.can_translate_init_list(q(CHAR_PTR), &ids(&[0]), None, &one()));
    assert!(!t.can_translate_init_list(q(CHAR_PTR), &ids(&[]), None, &parts(vec![])));
    assert!(!t.can_translate_init_list(q(CHAR), &ids(&[]), None, &parts(vec![])));
    assert!(t.can_translate_init_list(q(INT), &ids(&[]), None, &parts(vec![])));
    assert!(t.can_translate_init_list(q(VECTOR), &ids(&[]), None, &parts(vec![])));
    assert!(t.can_translate_init_list(q(STRUCT_SPLIT), &ids(&[]), None, &parts(vec![])));
    let mut unnamed = translation();
    unnamed.decl_names[D_STRUCT_SPLIT] = None;
    unnamed.decl_names[D_STRUCT_PLAIN] = None;
    unnamed.decl_names[D_FIELD] = None;
    assert!(!unnamed.can_translate_init_list(q(STRUCT_SPLIT), &ids(&[]), None, &parts(vec![])));
    assert!(unnamed.can_translate_init_list(q(STRUCT_PLAIN), &ids(&[]), None, &parts(vec![])));
    let field = Some(CDeclId(D_FIELD));
    assert!(t.can_translate_init_list(q(UNION), &ids(&[0]), field, &one()));
    assert!(!t.can_translate_init_list(q(UNION), &ids(&[0]), None, &one()));
    assert!(!t.can_translate_init_list(q(UNION), &ids(&[0]), Some(CDeclId(D_RED)), &one()));
    assert!(!unnamed.can_translate_init_list(q(UNION), &ids(&[0]), field, &one()));
    assert!(unnamed.can_translate_init_list(q(UNION), &ids(&[]), field, &parts(vec![])));
    assert!(!t.can_translate_union(CDeclId(D_FIELD), field, &one()));
    assert!(t.can_translate_union(CDeclId(D_UNION), field, &one()));
}

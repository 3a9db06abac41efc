//! Initializer lists: the literals of arrays, structs and unions.
use crate::translator::c_ast::{
    CDeclId, CDeclKind, CExprId, CExprKind, CLiteral, CQualTypeId, CTypeKind, CastKind,
    ExprContext,
};
use crate::translator::literals::{Translation, TranslationError, TranslationErrorView};
use crate::translator::rust_ast::{
    array_expr, array_of, call_expr, cast, cast_expr, path_expr, struct_expr, Expr, ExprView,
    Stmt, StmtView, WithStmts, WithStmtsView,
};
use crate::views::{lemma_deep_append, lemma_deep_push, result_view, results_view, reversed};
use vstd::prelude::*;

verus! {

/// What the translator has made of the parts of an initializer list.
#[derive(Debug, PartialEq, Eq)]
pub struct InitParts {
    /// Each initializer of the list, in order, translated as an expression
    /// whose value is used.
    pub values: Vec<Result<WithStmts, TranslationError>>,
    /// The value that stands for a missing initializer: that of the
    /// element type of an array, or of the type of a union's field.
    pub default: Result<WithStmts, TranslationError>,
    /// The literal that the initializers make of a struct, or the
    /// initializer that they make of a vector.
    pub aggregate: Result<WithStmts, TranslationError>,
}

/// The model of an [`InitParts`].
pub struct InitPartsView {
    pub values: Seq<Result<WithStmtsView, TranslationErrorView>>,
    pub default: Result<WithStmtsView, TranslationErrorView>,
    pub aggregate: Result<WithStmtsView, TranslationErrorView>,
}

impl DeepView for InitParts {
    type V = InitPartsView;

    open spec fn deep_view(&self) -> InitPartsView {
        InitPartsView {
            values: results_view(self.values@),
            default: result_view(self.default),
            aggregate: result_view(self.aggregate),
        }
    }
}

/// Translated values put together: their statements one after another,
/// the values in order, and whether one of them is unsafe.
pub struct GatheredView {
    pub stmts: Seq<StmtView>,
    pub vals: Seq<ExprView>,
    pub is_unsafe: bool,
}

/// The items put together, or the first error among them.
pub open spec fn gather(items: Seq<Result<WithStmtsView, TranslationErrorView>>) -> Result<
    GatheredView,
    TranslationErrorView,
>
    decreases items.len(),
{
    if items.len() == 0 {
        Ok(GatheredView { stmts: Seq::empty(), vals: Seq::empty(), is_unsafe: false })
    } else {
        match gather(items.drop_last()) {
            Err(e) => Err(e),
            Ok(g) => match items.last() {
                Err(e) => Err(e),
                Ok(w) => Ok(
                    GatheredView {
                        stmts: g.stmts + w.stmts,
                        vals: g.vals.push(w.val),
                        is_unsafe: g.is_unsafe || w.is_unsafe,
                    },
                ),
            },
        }
    }
}

/// An error among the first items is the error of all of them.
pub proof fn lemma_gather_error(items: Seq<Result<WithStmtsView, TranslationErrorView>>, k: int)
    requires
        0 <= k <= items.len(),
        gather(items.take(k)) is Err,
    ensures
        gather(items) == gather(items.take(k)),
    decreases items.len() - k,
{
    if k < items.len() {
        assert(items.take(k + 1).drop_last() =~= items.take(k));
        lemma_gather_error(items, k + 1);
    } else {
        assert(items.take(k) =~= items);
    }
}

/// The array literal of the items, or the first error among them.
pub open spec fn array_literal(items: Seq<Result<WithStmtsView, TranslationErrorView>>) -> Result<
    WithStmtsView,
    TranslationErrorView,
> {
    match gather(items) {
        Err(e) => Err(e),
        Ok(g) => Ok(WithStmtsView { stmts: g.stmts, val: array_of(g.vals), is_unsafe: g.is_unsafe }),
    }
}

/// `value` with its expression changed by `f`.
pub open spec fn map_val(
    value: Result<WithStmtsView, TranslationErrorView>,
    f: spec_fn(ExprView) -> ExprView,
) -> Result<WithStmtsView, TranslationErrorView> {
    match value {
        Err(e) => Err(e),
        Ok(w) => Ok(WithStmtsView { val: f(w.val), ..w }),
    }
}

/// A copy of a translated value or of its error.
pub fn copy_result(value: &Result<WithStmts, TranslationError>) -> (r: Result<
    WithStmts,
    TranslationError,
>)
    ensures
        result_view(r) == result_view(*value),
{
    match value {
        Ok(w) => Ok(w.copy()),
        Err(e) => Err(e.copy()),
    }
}

impl Translation {
    /// The list is a single string literal, which initializes an array of characters.
    pub open spec fn is_string_init(&self, ids: Seq<CExprId>) -> bool {
        ids.len() == 1 && (self.ast_context.exprs[ids[0].0 as int] matches CExprKind::Literal(_, lit)
            && lit is String)
    }

    /// The type to which the expression `id` is cast, where it is a cast
    /// that only changes `const`.
    pub open spec fn const_cast_target(&self, id: CExprId) -> Option<CQualTypeId> {
        match self.ast_context.exprs[id.0 as int] {
            CExprKind::ImplicitCast(to, _, CastKind::ConstCast) => Some(to),
            _ => None,
        }
    }

    /// The element of an array literal for the initializer `id`: its
    /// translated value, with the cast written out where the initializer
    /// only changes `const`, since an array literal casts nothing by itself.
    pub open spec fn element(
        &self,
        id: CExprId,
        value: Result<WithStmtsView, TranslationErrorView>,
    ) -> Result<WithStmtsView, TranslationErrorView> {
        match value {
            Err(e) => Err(e),
            Ok(w) => match self.const_cast_target(id) {
                None => Ok(w),
                Some(to) => match result_view(self.rust_types[to.ctype.0 as int]) {
                    Err(e) => Err(e),
                    Ok(target) => Ok(WithStmtsView { val: cast(w.val, target), ..w }),
                },
            },
        }
    }

    /// The `n` elements of an array literal: one for each initializer, and
    /// the default value for the rest.
    pub open spec fn array_items(
        &self,
        ids: Seq<CExprId>,
        parts: InitPartsView,
        n: usize,
    ) -> Seq<Result<WithStmtsView, TranslationErrorView>> {
        Seq::new(
            n as nat,
            |i: int|
                if i < ids.len() {
                    self.element(ids[i], parts.values[i])
                } else {
                    parts.default
                },
        )
    }

    /// The literal of the union `union_id` that sets the field `field`.
    pub open spec fn union_literal(
        &self,
        union_id: CDeclId,
        field: CDeclId,
        parts: InitPartsView,
    ) -> Result<WithStmtsView, TranslationErrorView> {
        let value = if parts.values.len() == 0 {
            parts.default
        } else {
            parts.values[0]
        };
        map_val(
            value,
            |v: ExprView|
                ExprView::Struct(
                    seq![self.decl_names[union_id.0 as int]->0@],
                    self.decl_names[field.0 as int]->0@,
                    Box::new(v),
                ),
        )
    }

    /// The literal of the struct `struct_id`: the literal that its
    /// initializers make, handed to the outer struct where the struct is split.
    pub open spec fn struct_literal(&self, struct_id: CDeclId, parts: InitPartsView) -> Result<
        WithStmtsView,
        TranslationErrorView,
    > {
        if self.ast_context.decls[struct_id.0 as int] matches CDeclKind::Struct {
            has_inner_struct_decl,
        } && has_inner_struct_decl {
            map_val(
                parts.aggregate,
                |v: ExprView|
                    ExprView::Call(
                        Box::new(ExprView::Path(seq![self.decl_names[struct_id.0 as int]->0@])),
                        seq![v],
                    ),
            )
        } else {
            parts.aggregate
        }
    }

    /// A union literal can be made.
    pub open spec fn union_translatable(
        &self,
        union_id: CDeclId,
        opt_union_field_id: Option<CDeclId>,
        parts: InitPartsView,
    ) -> bool {
        let decls = self.ast_context.decls@;
        let value = if parts.values.len() == 0 {
            parts.default
        } else {
            parts.values[0]
        };
        &&& opt_union_field_id matches Some(field)
        &&& union_id.0 < decls.len()
        &&& decls[union_id.0 as int] is Union
        &&& union_id.0 < self.decl_names.len()
        &&& self.decl_names[union_id.0 as int] is Some
        &&& field.0 < decls.len()
        &&& decls[field.0 as int] is Field
        &&& value is Ok ==> field.0 < self.decl_names.len() && self.decl_names[field.0 as int]
            is Some
    }

    /// An initializer list of the type `ty` can be translated.
    pub open spec fn init_list_translatable(
        &self,
        ty: CQualTypeId,
        ids: Seq<CExprId>,
        opt_union_field_id: Option<CDeclId>,
        parts: InitPartsView,
    ) -> bool {
        let types = self.ast_context.types@;
        &&& ty.ctype.0 < types.len()
        &&& parts.values.len() == ids.len()
        &&& match types[ty.ctype.0 as int] {
            CTypeKind::ConstantArray(elem, n) => {
                &&& forall|i: int| 0 <= i < ids.len() ==> (#[trigger] ids[i]).0 < self.ast_context.exprs.len()
                &&& !self.is_string_init(ids) ==> {
                    &&& ids.len() <= n
                    &&& forall|i: int|
                        0 <= i < ids.len() ==> (self.const_cast_target(#[trigger] ids[i]) matches Some(
                            to,
                        ) ==> to.ctype.0 < self.rust_types.len())
                }
            },
            CTypeKind::Struct(id) => {
                &&& id.0 < self.ast_context.decls.len()
                &&& (self.ast_context.decls[id.0 as int] matches CDeclKind::Struct {
                    has_inner_struct_decl,
                } && has_inner_struct_decl) ==> id.0 < self.decl_names.len()
                    && self.decl_names[id.0 as int] is Some
            },
            CTypeKind::Union(id) => self.union_translatable(id, opt_union_field_id, parts),
            CTypeKind::Pointer(_) => ids.len() >= 1,
            CTypeKind::Char => ids.len() >= 1,
            _ => true,
        }
    }

    /// The translation of an initializer list of the type `ty`.
    pub open spec fn init_list_expr(
        &self,
        ty: CQualTypeId,
        ids: Seq<CExprId>,
        opt_union_field_id: Option<CDeclId>,
        parts: InitPartsView,
    ) -> Result<WithStmtsView, TranslationErrorView> {
        match self.ast_context.types[ty.ctype.0 as int] {
            CTypeKind::ConstantArray(elem, n) => {
                if self.is_string_init(ids) {
                    parts.values[0]
                } else {
                    array_literal(self.array_items(ids, parts, n))
                }
            },
            CTypeKind::Struct(id) => self.struct_literal(id, parts),
            CTypeKind::Union(id) => self.union_literal(id, opt_union_field_id->0, parts),
            CTypeKind::Pointer(_) => parts.values[0],
            CTypeKind::Vector(_, _) => parts.aggregate,
            CTypeKind::Char => parts.values[0],
            other => Err(TranslationErrorView::InitListNotImplemented(other)),
        }
    }

    /// The element of an array literal for the initializer `id`.
    pub fn convert_element(&self, id: CExprId, value: Result<WithStmts, TranslationError>) -> (r: Result<
        WithStmts,
        TranslationError,
    >)
        requires
            id.0 < self.ast_context.exprs.len(),
            self.const_cast_target(id) matches Some(to) ==> to.ctype.0 < self.rust_types.len(),
        ensures
            result_view(r) == self.element(id, result_view(value)),
    {
        match value {
            Err(e) => Err(e),
            Ok(w) => match &self.ast_context.exprs[id.0] {
                CExprKind::ImplicitCast(to, _, CastKind::ConstCast) => match self.convert_type(
                    to.ctype,
                ) {
                    Err(e) => Err(e),
                    Ok(target) => Ok(
                        WithStmts {
                            stmts: w.stmts,
                            val: cast_expr(w.val, target),
                            is_unsafe: w.is_unsafe,
                        },
                    ),
                },
                _ => Ok(w),
            },
        }
    }

    /// The array literal of `n` elements for the initializers `ids`.
    pub fn convert_array_literal(&self, ids: &[CExprId], parts: InitParts, n: usize) -> (r: Result<
        WithStmts,
        TranslationError,
    >)
        requires
            parts.values.len() == ids.len(),
            ids.len() <= n,
            forall|i: int| 0 <= i < ids@.len() ==> (#[trigger] ids@[i]).0 < self.ast_context.exprs.len(),
            forall|i: int|
                0 <= i < ids@.len() ==> (self.const_cast_target(#[trigger] ids@[i]) matches Some(to)
                    ==> to.ctype.0 < self.rust_types.len()),
        ensures
            result_view(r) == array_literal(self.array_items(ids@, parts.deep_view(), n)),
    {
        let ghost items = self.array_items(ids@, parts.deep_view(), n);
        let ghost given = results_view(parts.values@);
        let default = parts.default;
        let mut rest = reversed(parts.values);
        let mut stmts: Vec<Stmt> = Vec::new();
        let mut vals: Vec<Expr> = Vec::new();
        let mut is_unsafe = false;
        let count = ids.len();
        let mut i: usize = 0;
        assert(stmts.deep_view() =~= Seq::<StmtView>::empty());
        assert(vals.deep_view() =~= Seq::<ExprView>::empty());
        assert(items.take(0) =~= Seq::empty());
        while i < n
            invariant
                i <= n,
                count == ids.len(),
                count <= n,
                given.len() == count,
                items == self.array_items(ids@, parts.deep_view(), n),
                given == parts.deep_view().values,
                result_view(default) == parts.deep_view().default,
                forall|k: int| 0 <= k < ids@.len() ==> (#[trigger] ids@[k]).0 < self.ast_context.exprs.len(),
                forall|k: int|
                    0 <= k < ids@.len() ==> (self.const_cast_target(#[trigger] ids@[k]) matches Some(
                        to,
                    ) ==> to.ctype.0 < self.rust_types.len()),
                rest.len() == (if i < count {
                    count - i
                } else {
                    0
                }),
                forall|k: int|
                    0 <= k < rest.len() ==> result_view(#[trigger] rest@[k]) == given[count - 1 - k],
                gather(items.take(i as int)) == Ok::<GatheredView, TranslationErrorView>(
                    GatheredView {
                        stmts: stmts.deep_view(),
                        vals: vals.deep_view(),
                        is_unsafe,
                    },
                ),
            decreases n - i,
        {
            let item = if i < count {
                match rest.pop() {
                    Some(value) => self.convert_element(ids[i], value),
                    None => copy_result(&default),
                }
            } else {
                copy_result(&default)
            };
            proof {
                assert(items.take(i + 1).drop_last() =~= items.take(i as int));
                assert(items.take(i + 1).last() == items[i as int]);
                assert(result_view(item) == items[i as int]);
            }
            match item {
                Err(e) => {
                    proof {
                        lemma_gather_error(items, i + 1);
                    }
                    return Err(e);
                },
                Ok(w) => {
                    let ghost stmts_before = stmts;
                    let ghost vals_before = vals;
                    let mut more = w.stmts;
                    let ghost added = more;
                    stmts.append(&mut more);
                    vals.push(w.val);
                    is_unsafe = is_unsafe || w.is_unsafe;
                    proof {
                        lemma_deep_append(stmts_before, added, stmts);
                        lemma_deep_push(vals_before, vals, w.val);
                    }
                },
            }
            i += 1;
        }
        assert(items.take(n as int) =~= items);
        Ok(WithStmts { stmts, val: array_expr(vals), is_unsafe })
    }

    /// The literal of a union that sets one field: to the first
    /// initializer or, where the list is empty, to the default of the
    /// field's type. The context and the type are not read.
    pub fn convert_union_literal(
        &self,
        _ctx: ExprContext,
        union_id: CDeclId,
        ids: &[CExprId],
        _ty: CQualTypeId,
        opt_union_field_id: Option<CDeclId>,
        parts: InitParts,
    ) -> (r: Result<WithStmts, TranslationError>)
        requires
            parts.values.len() == ids.len(),
            self.union_translatable(union_id, opt_union_field_id, parts.deep_view()),
        ensures
            result_view(r) == self.union_literal(
                union_id,
                opt_union_field_id->0,
                parts.deep_view(),
            ),
    {
        let field = match opt_union_field_id {
            Some(field) => field,
            None => vstd::pervasive::unreached(),
        };
        let union_name = match &self.decl_names[union_id.0] {
            Some(name) => name.clone(),
            None => vstd::pervasive::unreached(),
        };
        let mut values = parts.values;
        let value = if ids.len() == 0 {
            parts.default
        } else {
            values.swap_remove(0)
        };
        match value {
            Err(e) => Err(e),
            Ok(w) => {
                let field_name = match &self.decl_names[field.0] {
                    Some(name) => name.clone(),
                    None => vstd::pervasive::unreached(),
                };
                let mut path: Vec<String> = Vec::new();
                path.push(union_name);
                assert(path.deep_view() =~= seq![union_name@]);
                Ok(
                    WithStmts {
                        stmts: w.stmts,
                        val: struct_expr(path, field_name, w.val),
                        is_unsafe: w.is_unsafe,
                    },
                )
            },
        }
    }

    /// Translates an initializer list into an expression: an array
    /// literal, a struct literal or a union literal, by the type `ty`.
    /// The context is not read.
    pub fn convert_init_list(
        &self,
        _ctx: ExprContext,
        ty: CQualTypeId,
        ids: &[CExprId],
        opt_union_field_id: Option<CDeclId>,
        parts: InitParts,
    ) -> (r: Result<WithStmts, TranslationError>)
        requires
            self.init_list_translatable(ty, ids@, opt_union_field_id, parts.deep_view()),
        ensures
            result_view(r) == self.init_list_expr(ty, ids@, opt_union_field_id, parts.deep_view()),
    {
        match self.ast_context.resolve_type(ty.ctype) {
            CTypeKind::ConstantArray(elem, n) => {
                let mut is_string = false;
                if ids.len() == 1 {
                    match &self.ast_context.exprs[ids[0].0] {
                        CExprKind::Literal(_, CLiteral::String(_, _)) => {
                            is_string = true;
                        },
                        _ => {},
                    }
                }
                if is_string {
                    let mut values = parts.values;
                    values.swap_remove(0)
                } else {
                    self.convert_array_literal(ids, parts, n)
                }
            },
            CTypeKind::Struct(struct_id) => {
                if self.ast_context.has_inner_struct_decl(struct_id) {
                    let outer_name = match &self.decl_names[struct_id.0] {
                        Some(name) => name.clone(),
                        None => vstd::pervasive::unreached(),
                    };
                    match parts.aggregate {
                        Err(e) => Err(e),
                        Ok(w) => {
                            let mut path: Vec<String> = Vec::new();
                            path.push(outer_name);
                            assert(path.deep_view() =~= seq![outer_name@]);
                            let mut args: Vec<Expr> = Vec::new();
                            args.push(w.val);
                            assert(args.deep_view() =~= seq![w.val.deep_view()]);
                            Ok(
                                WithStmts {
                                    stmts: w.stmts,
                                    val: call_expr(path_expr(path), args),
                                    is_unsafe: w.is_unsafe,
                                },
                            )
                        },
                    }
                } else {
                    parts.aggregate
                }
            },
            CTypeKind::Union(union_id) => self.convert_union_literal(
                _ctx,
                union_id,
                ids,
                ty,
                opt_union_field_id,
                parts,
            ),
            CTypeKind::Pointer(_) => {
                let mut values = parts.values;
                values.swap_remove(0)
            },
            CTypeKind::Vector(_, _) => parts.aggregate,
            CTypeKind::Char => {
                let mut values = parts.values;
                values.swap_remove(0)
            },
            other => Err(TranslationError::InitListNotImplemented(other)),
        }
    }

    /// Tests whether a union literal can be made.
    pub fn can_translate_union(
        &self,
        union_id: CDeclId,
        opt_union_field_id: Option<CDeclId>,
        parts: &InitParts,
    ) -> (ok: bool)
        ensures
            ok == self.union_translatable(union_id, opt_union_field_id, parts.deep_view()),
    {
        let field = match opt_union_field_id {
            Some(field) => field,
            None => {
                return false;
            },
        };
        if union_id.0 >= self.ast_context.decls.len() || field.0 >= self.ast_context.decls.len() {
            return false;
        }
        let is_union = match &self.ast_context.decls[union_id.0] {
            CDeclKind::Union => true,
            _ => false,
        };
        let is_field = match &self.ast_context.decls[field.0] {
            CDeclKind::Field { typ } => true,
            _ => false,
        };
        if !is_union || !is_field {
            return false;
        }
        if union_id.0 >= self.decl_names.len() || self.decl_names[union_id.0].is_none() {
            return false;
        }
        let has_value = if parts.values.len() == 0 {
            parts.default.is_ok()
        } else {
            parts.values[0].is_ok()
        };
        !has_value || (field.0 < self.decl_names.len() && self.decl_names[field.0].is_some())
    }

    /// Tests whether an initializer list of the type `ty` can be translated.
    pub fn can_translate_init_list(
        &self,
        ty: CQualTypeId,
        ids: &[CExprId],
        opt_union_field_id: Option<CDeclId>,
        parts: &InitParts,
    ) -> (ok: bool)
        ensures
            ok == self.init_list_translatable(ty, ids@, opt_union_field_id, parts.deep_view()),
    {
        if ty.ctype.0 >= self.ast_context.types.len() || parts.values.len() != ids.len() {
            return false;
        }
        match self.ast_context.types[ty.ctype.0] {
            CTypeKind::ConstantArray(elem, n) => {
                let count = ids.len();
                let mut i: usize = 0;
                while i < count
                    invariant
                        count == ids.len(),
                        i <= count,
                        ty.ctype.0 < self.ast_context.types.len(),
                        self.ast_context.types[ty.ctype.0 as int] == CTypeKind::ConstantArray(
                            elem,
                            n,
                        ),
                        parts.values.len() == ids.len(),
                        forall|k: int|
                            0 <= k < i ==> (#[trigger] ids@[k]).0 < self.ast_context.exprs.len(),
                    decreases count - i,
                {
                    if ids[i].0 >= self.ast_context.exprs.len() {
                        assert(ids@[i as int].0 >= self.ast_context.exprs.len());
                        return false;
                    }
                    i += 1;
                }
                let is_string = count == 1 && match &self.ast_context.exprs[ids[0].0] {
                    CExprKind::Literal(_, CLiteral::String(_, _)) => true,
                    _ => false,
                };
                if is_string {
                    return true;
                }
                if count > n {
                    return false;
                }
                let mut j: usize = 0;
                while j < count
                    invariant
                        count == ids.len(),
                        j <= count,
                        count <= n,
                        ty.ctype.0 < self.ast_context.types.len(),
                        self.ast_context.types[ty.ctype.0 as int] == CTypeKind::ConstantArray(
                            elem,
                            n,
                        ),
                        parts.values.len() == ids.len(),
                        !self.is_string_init(ids@),
                        forall|k: int|
                            0 <= k < ids@.len() ==> (#[trigger] ids@[k]).0
                                < self.ast_context.exprs.len(),
                        forall|k: int|
                            0 <= k < j ==> (self.const_cast_target(#[trigger] ids@[k]) matches Some(
                                to,
                            ) ==> to.ctype.0 < self.rust_types.len()),
                    decreases count - j,
                {
                    let in_reach = match &self.ast_context.exprs[ids[j].0] {
                        CExprKind::ImplicitCast(to, _, CastKind::ConstCast) => to.ctype.0
                            < self.rust_types.len(),
                        _ => true,
                    };
                    if !in_reach {
                        assert(self.const_cast_target(ids@[j as int]) is Some);
                        return false;
                    }
                    j += 1;
                }
                true
            },
            CTypeKind::Struct(id) => {
                if id.0 >= self.ast_context.decls.len() {
                    return false;
                }
                !self.ast_context.has_inner_struct_decl(id) || (id.0 < self.decl_names.len()
                    && self.decl_names[id.0].is_some())
            },
            CTypeKind::Union(id) => self.can_translate_union(id, opt_union_field_id, parts),
            CTypeKind::Pointer(_) => ids.len() >= 1,
            CTypeKind::Char => ids.len() >= 1,
            _ => true,
        }
    }
}

} // verus!

//! Properties of the annotator that hold across its functions.

use vstd::prelude::*;
use crate::ast::{Ident, AssignTarget, ClassMember, MemberExpr, KeyValueProp, MethodProp, MemberProp, BodyStmt, FnDecl, VarDeclarator, ArrowExpr, AssignExpr, CallExpr, Class, ClassDecl, Expr, FnExpr, ObjectLit, PropOrSpread, Stmt};
use crate::config::Mode;
use crate::matchers::{
    SubTargetView, CHAINED_ADF, CHAINED_ROUTE_PROVIDER,
    is_ident_named, is_regular_method, spec_match_call, spec_match_material_modal, spec_match_ng_route, spec_match_ng_ui,
    state_subs, CHAINED_STATE_PROVIDER, spec_match_injector_invoke, spec_match_provide, spec_match_regular, DecisionView, TargetView, CHAINED_REGULAR,
};
use crate::nginject::{spec_prologue, spec_arrow_directive, spec_comments_result, spec_from_opt, spec_function_directive, NgInjectResult};
use crate::positions::seq_insert;
use crate::scan::{
    class_directive_of, prop_request_step, props_requests, spec_handle_explicit, spec_scan_class_decl,
    spec_scan_expr_stmt, spec_scan_object_lit, spec_scan_return, decl_request, spec_insert_decl, spec_scan_fn_decl, spec_scan_var_declarator, var_decl_step, var_request, DeclKind,
    DeclView, add_all, ident_name, named_entry, one_view_entries, resolve_entries, spec_callee_chain_kind, spec_mark,
    spec_scan_call, sub_entries, subs_entries, target_entries, targets_entries, view_props_entries, views_entries, arrow_body_object, ctor_params_of, directive_controller_step, entry, has_suspect_at, request_or_comments,
    spec_add_suspect, spec_apply_request, spec_scan_arrow, spec_scan_fn_expr, ScanView, SuspectView,
};
use crate::text::seq_contains;
use crate::transforms::{
    edit_result, inject_stmt_parts, is_annotation_of, spec_annotation_strings, spec_class_has_static_inject,
    spec_is_inject_stmt, spec_renamed, ExprEdit,
};
use crate::utils::{kv_values, param_names, spec_method_call, spec_prop_value, spec_is_annotated_array, spec_is_fn_or_arrow, spec_is_fn_with_args};
use crate::visitor::{
    apply_inserts, arg_effect, class_edit_for, inject_indices, kept_slots, op_plan, ops_at, ops_plan, plan_upto,
    spec_expr_stmt_edit, spec_layout, spec_prop_edit, spec_schedule, spec_transform, stable_sort, sorted_insert,
    arg_edits, sched_args, spec_fn_decl_sched, spec_var_decl_sched, spec_is_suspect, PropEditView, ops_unique, spec_class_decl_edit, spec_class_expr_edit, ArgEffect, ClassEditView, EditView, InjectOpKind, OpView,
    SlotView,
};

verus! {

/// Without rename entries an annotation lists the parameter names as they
/// are.
pub proof fn law_annotation_without_renames(params: Seq<Seq<char>>)
    ensures
        spec_annotation_strings(params, Map::empty()) == params,
{
    assert(spec_annotation_strings(params, Map::empty()) =~= params);
}

/// An annotation has one string per parameter: the parameter's name after
/// renaming.
pub proof fn law_annotation_strings(params: Seq<Seq<char>>, m: Map<Seq<char>, Seq<char>>)
    ensures
        spec_annotation_strings(params, m).len() == params.len(),
        forall|i: int| 0 <= i < params.len() ==> #[trigger] spec_annotation_strings(params, m)[i] == spec_renamed(params[i], m),
{
}

/// Removing annotations undoes adding them: the array that adding makes of
/// a function with parameters is unwrapped again into that function.
pub proof fn law_remove_undoes_add(f: Expr, strings: Seq<Seq<char>>, w: Expr, other: Seq<Seq<char>>)
    requires
        spec_is_fn_with_args(f),
        is_annotation_of(w, f, strings),
    ensures
        spec_transform(Mode::Add, f, strings) == Some(EditView::Wrap(strings)),
        spec_transform(Mode::Remove, w, other) == Some(EditView::Unwrap),
        edit_result(w, ExprEdit::Unwrap, f),
{
    lemma_annotation_is_annotated(f, strings, w);
}

/// Adding is idempotent: an annotation array that adding made is left as
/// it is by adding again.
pub proof fn law_add_idempotent(f: Expr, strings: Seq<Seq<char>>, w: Expr, other: Seq<Seq<char>>)
    requires
        spec_is_fn_or_arrow(f),
        is_annotation_of(w, f, strings),
    ensures
        spec_transform(Mode::Add, w, other) is None,
{
    lemma_annotation_is_annotated(f, strings, w);
}

/// An annotation of a function is an annotated array.
proof fn lemma_annotation_is_annotated(f: Expr, strings: Seq<Seq<char>>, w: Expr)
    requires
        spec_is_fn_or_arrow(f),
        is_annotation_of(w, f, strings),
    ensures
        spec_is_annotated_array(w),
        !spec_is_fn_with_args(w),
{
    match w {
        Expr::Array(a) => {
            assert forall|i: int| 0 <= i < a.elems@.len() - 1 implies #[trigger] crate::utils::is_str_elem(a.elems@[i]) by {
                assert(crate::transforms::is_str_lit_of(a.elems@[i], strings[i]));
            }
        },
        _ => {},
    }
}

/// Rebuilding restrings an annotated array and acts as adding on anything
/// else.
pub proof fn law_rebuild(e: Expr, strings: Seq<Seq<char>>)
    ensures
        spec_is_annotated_array(e) ==> spec_transform(Mode::Rebuild, e, strings) == Some(EditView::Restring(strings)),
        !spec_is_annotated_array(e) ==> spec_transform(Mode::Rebuild, e, strings) == spec_transform(Mode::Add, e, strings),
{
}

/// Rebuilding an annotation keeps its function and replaces its strings:
/// the result is again an annotation of the same function, which a further
/// rebuild restrings once more.
pub proof fn law_rebuild_keeps_function(
    f: Expr,
    old_strings: Seq<Seq<char>>,
    w: Expr,
    edit: ExprEdit,
    after: Expr,
    other: Seq<Seq<char>>,
)
    requires
        spec_is_fn_or_arrow(f),
        is_annotation_of(w, f, old_strings),
        edit is Restring,
        edit_result(w, edit, after),
    ensures
        spec_transform(Mode::Rebuild, w, other) == Some(EditView::Restring(other)),
        is_annotation_of(after, f, crate::utils::str_views(edit->Restring_0@)),
        spec_transform(Mode::Rebuild, after, other) == Some(EditView::Restring(other)),
{
    lemma_annotation_is_annotated(f, old_strings, w);
    lemma_annotation_is_annotated(f, crate::utils::str_views(edit->Restring_0@), after);
}

/// Removing never adds an annotation and adding never removes one: the
/// edits, class edits and `$inject` plans of each mode.
pub proof fn law_modes_direction(
    e: Expr,
    strings: Seq<Seq<char>>,
    rename: Map<Seq<char>, Seq<char>>,
    params: Option<Seq<Seq<char>>>,
    has_static: bool,
    stmts: Seq<Stmt>,
    i: int,
    op: OpView,
)
    ensures
        spec_transform(Mode::Remove, e, strings) is None || spec_transform(Mode::Remove, e, strings) == Some(EditView::Unwrap),
        spec_transform(Mode::Add, e, strings) is None || spec_transform(Mode::Add, e, strings) == Some(EditView::Wrap(strings)),
        class_edit_for(Mode::Remove, rename, params, has_static) matches Some(ce) && ce.add is None,
        class_edit_for(Mode::Add, rename, params, has_static) matches Some(ce) ==> !ce.remove_existing,
        op.op == InjectOpKind::Remove ==> op_plan(stmts, i, op, rename).1.len() == 0,
        op.op == InjectOpKind::Add ==> op_plan(stmts, i, op, rename).0.len() == 0,
{
}

/// An expression that carries an `ngNoInject` request is never edited, as
/// an argument, as the right side of an assignment or as a property value.
pub proof fn law_blocked_untouched(
    c: ScanView,
    mode: Mode,
    rename: Map<Seq<char>, Seq<char>>,
    e: Expr,
    a: AssignExpr,
    p: PropOrSpread,
)
    ensures
        c.blocked.contains(e.spec_lo()) ==> arg_effect(c, mode, rename, e) == ArgEffect::Nothing,
        c.blocked.contains(a.right.spec_lo()) ==> spec_expr_stmt_edit(c, mode, rename, Expr::Assign(a)) is None,
        (match p {
            PropOrSpread::KeyValue(kv) => c.blocked.contains(kv.value.spec_lo()),
            PropOrSpread::Method(m) => c.blocked.contains(m.function.lo),
            PropOrSpread::Other => true,
        }) ==> spec_prop_edit(c, mode, rename, p) is None,
{
}

/// No two suspects share a position.
pub open spec fn suspects_unique(c: ScanView) -> bool {
    forall|i: int, j: int| 0 <= i < j < c.suspects.len() ==> c.suspects[i].target_lo != c.suspects[j].target_lo
}

/// Recording suspects keeps at most one suspect per position.
pub proof fn law_one_suspect_per_position(c: ScanView, es: Seq<SuspectView>)
    requires
        suspects_unique(c),
    ensures
        suspects_unique(add_all(c, es)),
    decreases es.len(),
{
    if es.len() > 0 {
        law_one_suspect_per_position(c, es.drop_last());
        let prev = add_all(c, es.drop_last());
        let e = es.last();
        if !crate::scan::has_suspect_at(prev, e.target_lo) {
            let next = spec_add_suspect(prev, e);
            assert forall|i: int, j: int| 0 <= i < j < next.suspects.len() implies next.suspects[i].target_lo
                != next.suspects[j].target_lo by {
                if j == next.suspects.len() - 1 {
                    assert(prev.suspects[i].target_lo != e.target_lo);
                }
            }
        }
    }
}

/// Scheduling keeps at most one pending operation per name and statement.
pub proof fn law_schedule_unique(
    pending: Seq<OpView>,
    mode: Mode,
    name: Seq<char>,
    ident_lo: Option<u32>,
    params: Seq<Seq<char>>,
    stmt_lo: u32,
)
    requires
        ops_unique(pending),
    ensures
        ops_unique(spec_schedule(pending, mode, name, ident_lo, params, stmt_lo)),
{
    let next = spec_schedule(pending, mode, name, ident_lo, params, stmt_lo);
    assert forall|i: int, j: int| 0 <= i < j < next.len() implies !(next[i].name == next[j].name
        && next[i].stmt_lo == next[j].stmt_lo) by {
        if next.len() > pending.len() && j == pending.len() {
            assert(!(pending[i].name == name && pending[i].stmt_lo == stmt_lo));
        }
    }
}

/// Module method calls continue a module chain: on a chain, every module
/// method (but `$stateProvider.decorator` and `angular.module`) keeps the
/// chain going, whatever its arguments.
pub proof fn law_chain_propagates(obj: Expr, m: Seq<char>, args: Seq<Expr>, pattern: Seq<char>)
    requires
        is_regular_method(m),
        !(is_ident_named(obj, "angular"@) && m == "module"@),
        !(is_ident_named(obj, "$stateProvider"@) && m == "decorator"@),
    ensures
        spec_match_regular(obj, m, args, Some(CHAINED_REGULAR), pattern) matches Some(d)
            && d.chain_kind == Some(CHAINED_REGULAR),
{
}

/// In a comment that mentions both, `@ngNoInject` wins over `@ngInject`.
pub proof fn law_no_inject_wins(texts: Seq<String>)
    requires
        texts.len() > 0,
        seq_contains(texts[0]@, "@ngNoInject"@),
    ensures
        spec_comments_result(texts) == NgInjectResult::NoInject,
{
}


/// Every operation of `ops` removes.
pub open spec fn all_remove(ops: Seq<OpView>) -> bool {
    forall|q: int| 0 <= q < ops.len() ==> #[trigger] ops[q].op == InjectOpKind::Remove
}

proof fn lemma_ops_at_sub(pending: Seq<OpView>, lo: u32)
    ensures
        forall|q: int| 0 <= q < ops_at(pending, lo).len() ==> exists|p: int| 0 <= p < pending.len()
            && #[trigger] ops_at(pending, lo)[q] == pending[p],
    decreases pending.len(),
{
    if pending.len() > 0 {
        lemma_ops_at_sub(pending.drop_last(), lo);
        let prev = ops_at(pending.drop_last(), lo);
        assert forall|q: int| 0 <= q < ops_at(pending, lo).len() implies exists|p: int| 0 <= p < pending.len()
            && #[trigger] ops_at(pending, lo)[q] == pending[p] by {
            if q < prev.len() {
                let p = choose|p: int| 0 <= p < pending.drop_last().len() && prev[q] == pending.drop_last()[p];
                assert(pending[p] == pending.drop_last()[p]);
            } else {
                assert(ops_at(pending, lo)[q] == pending[pending.len() - 1]);
            }
        }
    }
}

proof fn lemma_ops_at_contains(pending: Seq<OpView>, lo: u32, p: int)
    requires
        0 <= p < pending.len(),
        pending[p].stmt_lo == lo,
    ensures
        ops_at(pending, lo).contains(pending[p]),
    decreases pending.len(),
{
    if p < pending.len() - 1 {
        lemma_ops_at_contains(pending.drop_last(), lo, p);
        let prev = ops_at(pending.drop_last(), lo);
        let q = choose|q: int| 0 <= q < prev.len() && prev[q] == pending.drop_last()[p];
        assert(ops_at(pending, lo)[q] == pending[p]);
    } else {
        assert(ops_at(pending, lo)[ops_at(pending, lo).len() - 1] == pending[p]);
    }
}

proof fn lemma_removing_ops_insert_nothing(stmts: Seq<Stmt>, i: int, ops: Seq<OpView>, rename: Map<Seq<char>, Seq<char>>)
    requires
        all_remove(ops),
    ensures
        ops_plan(stmts, i, ops, rename).1.len() == 0,
    decreases ops.len(),
{
    if ops.len() > 0 {
        assert(ops.last().op == InjectOpKind::Remove);
        lemma_removing_ops_insert_nothing(stmts, i, ops.drop_last(), rename);
    }
}

proof fn lemma_removing_plan_inserts_nothing(stmts: Seq<Stmt>, pending: Seq<OpView>, rename: Map<Seq<char>, Seq<char>>, k: int)
    requires
        all_remove(pending),
        k <= stmts.len(),
    ensures
        plan_upto(stmts, pending, rename, k).1.len() == 0,
    decreases k,
{
    if k > 0 {
        lemma_removing_plan_inserts_nothing(stmts, pending, rename, k - 1);
        let ops = ops_at(pending, stmts[k - 1].lo);
        lemma_ops_at_sub(pending, stmts[k - 1].lo);
        assert forall|q: int| 0 <= q < ops.len() implies #[trigger] ops[q].op == InjectOpKind::Remove by {
            let p = choose|p: int| 0 <= p < pending.len() && ops[q] == pending[p];
            assert(pending[p].op == InjectOpKind::Remove);
        }
        lemma_removing_ops_insert_nothing(stmts, k - 1, ops, rename);
    }
}

proof fn lemma_inject_indices_complete(stmts: Seq<Stmt>, name: Seq<char>, j: int)
    requires
        0 <= j < stmts.len(),
        spec_is_inject_stmt(stmts[j], name),
    ensures
        inject_indices(stmts, name).contains(j),
    decreases stmts.len(),
{
    if j < stmts.len() - 1 {
        lemma_inject_indices_complete(stmts.drop_last(), name, j);
        let prev = inject_indices(stmts.drop_last(), name);
        let q = choose|q: int| 0 <= q < prev.len() && prev[q] == j;
        assert(inject_indices(stmts, name)[q] == j);
    } else {
        let r = inject_indices(stmts, name);
        assert(r[r.len() - 1] == j);
    }
}

proof fn lemma_ops_plan_removes(stmts: Seq<Stmt>, i: int, ops: Seq<OpView>, rename: Map<Seq<char>, Seq<char>>, op: OpView, j: int)
    requires
        ops.contains(op),
        op.op == InjectOpKind::Remove,
        inject_indices(stmts, op.name).contains(j),
    ensures
        ops_plan(stmts, i, ops, rename).0.contains(j),
    decreases ops.len(),
{
    let prev = ops_plan(stmts, i, ops.drop_last(), rename);
    let last = op_plan(stmts, i, ops.last(), rename);
    if ops.last() == op {
        let q = choose|q: int| 0 <= q < last.0.len() && last.0[q] == j;
        assert((prev.0 + last.0)[prev.0.len() + q] == j);
    } else {
        let w = choose|w: int| 0 <= w < ops.len() && ops[w] == op;
        assert(w < ops.len() - 1);
        assert(ops.drop_last()[w] == op);
        lemma_ops_plan_removes(stmts, i, ops.drop_last(), rename, op, j);
        let q = choose|q: int| 0 <= q < prev.0.len() && prev.0[q] == j;
        assert((prev.0 + last.0)[q] == j);
    }
}

proof fn lemma_plan_upto_keeps(stmts: Seq<Stmt>, pending: Seq<OpView>, rename: Map<Seq<char>, Seq<char>>, k: int, i: int, j: int)
    requires
        0 <= i < k <= stmts.len(),
        ops_plan(stmts, i, ops_at(pending, stmts[i].lo), rename).0.contains(j),
    ensures
        plan_upto(stmts, pending, rename, k).0.contains(j),
    decreases k,
{
    let prev = plan_upto(stmts, pending, rename, k - 1);
    let here = ops_plan(stmts, k - 1, ops_at(pending, stmts[k - 1].lo), rename);
    if i == k - 1 {
        let q = choose|q: int| 0 <= q < here.0.len() && here.0[q] == j;
        assert((prev.0 + here.0)[prev.0.len() + q] == j);
    } else {
        lemma_plan_upto_keeps(stmts, pending, rename, k - 1, i, j);
        let q = choose|q: int| 0 <= q < prev.0.len() && prev.0[q] == j;
        assert((prev.0 + here.0)[q] == j);
    }
}

proof fn lemma_kept_slots(n: int, rem: Seq<int>)
    ensures
        forall|k: int| 0 <= k < kept_slots(n, rem).len() ==> (#[trigger] kept_slots(n, rem)[k] matches SlotView::Keep(j)
            && 0 <= j < n && !rem.contains(j)),
    decreases n,
{
    if n > 0 {
        lemma_kept_slots(n - 1, rem);
    }
}

/// Removing annotations removes every `name.$inject = ..` statement of a
/// statement list that holds the declaration of `name`: in remove mode,
/// the rebuilt list keeps only other statements and adds none.
pub proof fn law_remove_clears(
    stmts: Seq<Stmt>,
    pending: Seq<OpView>,
    rename: Map<Seq<char>, Seq<char>>,
    p: int,
    i: int,
)
    requires
        all_remove(pending),
        0 <= p < pending.len(),
        0 <= i < stmts.len(),
        stmts[i].lo == pending[p].stmt_lo,
    ensures
        forall|k: int| 0 <= k < spec_layout(stmts, pending, rename).len() ==> (#[trigger] spec_layout(stmts, pending, rename)[k] matches SlotView::Keep(j)
            && 0 <= j < stmts.len() && !spec_is_inject_stmt(stmts[j], pending[p].name)),
{
    let n = stmts.len() as int;
    let plan = plan_upto(stmts, pending, rename, n);
    lemma_removing_plan_inserts_nothing(stmts, pending, rename, n);
    assert(stable_sort(plan.1) =~= Seq::<(int, SlotView)>::empty()) by {
        assert(plan.1 =~= Seq::<(int, SlotView)>::empty());
    }
    assert(spec_layout(stmts, pending, rename) == kept_slots(n, plan.0));
    lemma_kept_slots(n, plan.0);
    let op = pending[p];
    assert(pending[p].op == InjectOpKind::Remove);
    lemma_ops_at_contains(pending, stmts[i].lo, p);
    assert forall|j: int| 0 <= j < n && spec_is_inject_stmt(stmts[j], op.name) implies plan.0.contains(j) by {
        lemma_inject_indices_complete(stmts, op.name, j);
        lemma_ops_plan_removes(stmts, i, ops_at(pending, stmts[i].lo), rename, op, j);
        lemma_plan_upto_keeps(stmts, pending, rename, n, i, j);
    }
}


/// Every operation of `ops` adds.
pub open spec fn all_add(ops: Seq<OpView>) -> bool {
    forall|q: int| 0 <= q < ops.len() ==> #[trigger] ops[q].op == InjectOpKind::Add
}

/// Every operation of `ops` only inserts into `stmts`: it adds, or it
/// rebuilds a name that has no `$inject` statement there.
pub open spec fn inserts_only(stmts: Seq<Stmt>, ops: Seq<OpView>) -> bool {
    forall|q: int| 0 <= q < ops.len() ==> #[trigger] ops[q].op == InjectOpKind::Add
        || (ops[q].op == InjectOpKind::Rebuild && inject_indices(stmts, ops[q].name).len() == 0)
}

proof fn lemma_inserting_ops_remove_nothing(stmts: Seq<Stmt>, i: int, ops: Seq<OpView>, rename: Map<Seq<char>, Seq<char>>)
    requires
        inserts_only(stmts, ops),
    ensures
        ops_plan(stmts, i, ops, rename).0.len() == 0,
    decreases ops.len(),
{
    if ops.len() > 0 {
        let q = ops.len() - 1;
        assert(ops[q].op == InjectOpKind::Add || (ops[q].op == InjectOpKind::Rebuild && inject_indices(stmts, ops[q].name).len() == 0));
        assert forall|k: int| 0 <= k < ops.drop_last().len() implies #[trigger] ops.drop_last()[k].op == InjectOpKind::Add
            || (ops.drop_last()[k].op == InjectOpKind::Rebuild && inject_indices(stmts, ops.drop_last()[k].name).len() == 0) by {
            assert(ops.drop_last()[k] == ops[k]);
        }
        lemma_inserting_ops_remove_nothing(stmts, i, ops.drop_last(), rename);
    }
}

proof fn lemma_inserting_plan_removes_nothing(stmts: Seq<Stmt>, pending: Seq<OpView>, rename: Map<Seq<char>, Seq<char>>, k: int)
    requires
        inserts_only(stmts, pending),
        k <= stmts.len(),
    ensures
        plan_upto(stmts, pending, rename, k).0.len() == 0,
    decreases k,
{
    if k > 0 {
        lemma_inserting_plan_removes_nothing(stmts, pending, rename, k - 1);
        let ops = ops_at(pending, stmts[k - 1].lo);
        lemma_ops_at_sub(pending, stmts[k - 1].lo);
        assert forall|q: int| 0 <= q < ops.len() implies #[trigger] ops[q].op == InjectOpKind::Add
            || (ops[q].op == InjectOpKind::Rebuild && inject_indices(stmts, ops[q].name).len() == 0) by {
            let p = choose|p: int| 0 <= p < pending.len() && ops[q] == pending[p];
            assert(pending[p].op == InjectOpKind::Add
                || (pending[p].op == InjectOpKind::Rebuild && inject_indices(stmts, pending[p].name).len() == 0));
        }
        lemma_inserting_ops_remove_nothing(stmts, k - 1, ops, rename);
    }
}

proof fn lemma_ops_plan_inserts(stmts: Seq<Stmt>, i: int, ops: Seq<OpView>, rename: Map<Seq<char>, Seq<char>>, x: (int, SlotView))
    requires
        exists|op: OpView| ops.contains(op) && #[trigger] op_plan(stmts, i, op, rename).1.contains(x),
    ensures
        ops_plan(stmts, i, ops, rename).1.contains(x),
    decreases ops.len(),
{
    let op = choose|op: OpView| ops.contains(op) && #[trigger] op_plan(stmts, i, op, rename).1.contains(x);
    let prev = ops_plan(stmts, i, ops.drop_last(), rename);
    let last = op_plan(stmts, i, ops.last(), rename);
    if ops.last() == op {
        let q = choose|q: int| 0 <= q < last.1.len() && last.1[q] == x;
        assert((prev.1 + last.1)[prev.1.len() + q] == x);
    } else {
        let w = choose|w: int| 0 <= w < ops.len() && ops[w] == op;
        assert(ops.drop_last()[w] == op);
        assert(ops.drop_last().contains(op));
        lemma_ops_plan_inserts(stmts, i, ops.drop_last(), rename, x);
        let q = choose|q: int| 0 <= q < prev.1.len() && prev.1[q] == x;
        assert((prev.1 + last.1)[q] == x);
    }
}

proof fn lemma_plan_upto_inserts(stmts: Seq<Stmt>, pending: Seq<OpView>, rename: Map<Seq<char>, Seq<char>>, k: int, i: int, x: (int, SlotView))
    requires
        0 <= i < k <= stmts.len(),
        ops_plan(stmts, i, ops_at(pending, stmts[i].lo), rename).1.contains(x),
    ensures
        plan_upto(stmts, pending, rename, k).1.contains(x),
    decreases k,
{
    let prev = plan_upto(stmts, pending, rename, k - 1);
    let here = ops_plan(stmts, k - 1, ops_at(pending, stmts[k - 1].lo), rename);
    if i == k - 1 {
        let q = choose|q: int| 0 <= q < here.1.len() && here.1[q] == x;
        assert((prev.1 + here.1)[prev.1.len() + q] == x);
    } else {
        lemma_plan_upto_inserts(stmts, pending, rename, k - 1, i, x);
        let q = choose|q: int| 0 <= q < prev.1.len() && prev.1[q] == x;
        assert((prev.1 + here.1)[q] == x);
    }
}

proof fn lemma_sorted_insert_keeps(s: Seq<(int, SlotView)>, x: (int, SlotView))
    ensures
        sorted_insert(s, x).contains(x),
        forall|y: (int, SlotView)| s.contains(y) ==> #[trigger] sorted_insert(s, x).contains(y),
    decreases s.len(),
{
    if s.len() == 0 {
        assert(sorted_insert(s, x)[0] == x);
    } else if s.last().0 <= x.0 {
        assert(sorted_insert(s, x)[s.len() as int] == x);
        assert forall|y: (int, SlotView)| s.contains(y) implies #[trigger] sorted_insert(s, x).contains(y) by {
            let q = choose|q: int| 0 <= q < s.len() && s[q] == y;
            assert(sorted_insert(s, x)[q] == y);
        }
    } else {
        lemma_sorted_insert_keeps(s.drop_last(), x);
        let r = sorted_insert(s.drop_last(), x);
        let q0 = choose|q: int| 0 <= q < r.len() && r[q] == x;
        assert(sorted_insert(s, x)[q0] == x);
        assert forall|y: (int, SlotView)| s.contains(y) implies #[trigger] sorted_insert(s, x).contains(y) by {
            let q = choose|q: int| 0 <= q < s.len() && s[q] == y;
            if q == s.len() - 1 {
                assert(sorted_insert(s, x)[r.len() as int] == y);
            } else {
                assert(s.drop_last()[q] == y);
                assert(s.drop_last().contains(y));
                assert(r.contains(y));
                let w = choose|w: int| 0 <= w < r.len() && r[w] == y;
                assert(sorted_insert(s, x)[w] == y);
            }
        }
    }
}

proof fn lemma_stable_sort_keeps(s: Seq<(int, SlotView)>)
    ensures
        forall|y: (int, SlotView)| s.contains(y) ==> #[trigger] stable_sort(s).contains(y),
    decreases s.len(),
{
    if s.len() > 0 {
        lemma_stable_sort_keeps(s.drop_last());
        lemma_sorted_insert_keeps(stable_sort(s.drop_last()), s.last());
        assert forall|y: (int, SlotView)| s.contains(y) implies #[trigger] stable_sort(s).contains(y) by {
            let q = choose|q: int| 0 <= q < s.len() && s[q] == y;
            if q < s.len() - 1 {
                assert(s.drop_last()[q] == y);
                assert(s.drop_last().contains(y));
            }
        }
    }
}

proof fn lemma_apply_inserts_keeps(base: Seq<SlotView>, ins: Seq<(int, SlotView)>)
    ensures
        forall|v: SlotView| base.contains(v) ==> #[trigger] apply_inserts(base, ins).contains(v),
        forall|x: (int, SlotView)| ins.contains(x) ==> #[trigger] apply_inserts(base, ins).contains(x.1),
    decreases ins.len(),
{
    if ins.len() > 0 {
        let x = ins.last();
        let pos = if x.0 < 0 { 0 } else if x.0 < base.len() { x.0 } else { base.len() as int };
        let nb = base.insert(pos, x.1);
        lemma_apply_inserts_keeps(nb, ins.drop_last());
        let rest = apply_inserts(nb, ins.drop_last());
        assert(apply_inserts(base, ins) == rest);
        assert(nb[pos] == x.1);
        assert(nb.contains(x.1));
        assert(rest.contains(x.1));
        assert forall|v: SlotView| base.contains(v) implies #[trigger] apply_inserts(base, ins).contains(v) by {
            let q = choose|q: int| 0 <= q < base.len() && base[q] == v;
            if q < pos {
                assert(nb[q] == v);
            } else {
                assert(nb[q + 1] == v);
            }
            assert(nb.contains(v));
            assert(rest.contains(v));
        }
        assert forall|y: (int, SlotView)| ins.contains(y) implies #[trigger] apply_inserts(base, ins).contains(y.1) by {
            let q = choose|q: int| 0 <= q < ins.len() && ins[q] == y;
            if q < ins.len() - 1 {
                assert(ins.drop_last()[q] == y);
                assert(ins.drop_last().contains(y));
                assert(rest.contains(y.1));
            } else {
                assert(y == x);
            }
        }
    }
}

proof fn lemma_kept_slots_all(n: int, rem: Seq<int>)
    requires
        rem.len() == 0,
    ensures
        forall|j: int| 0 <= j < n ==> #[trigger] kept_slots(n, rem).contains(SlotView::Keep(j)),
    decreases n,
{
    if n > 0 {
        lemma_kept_slots_all(n - 1, rem);
        let prev = kept_slots(n - 1, rem);
        assert forall|j: int| 0 <= j < n implies #[trigger] kept_slots(n, rem).contains(SlotView::Keep(j)) by {
            if j < n - 1 {
                assert(prev.contains(SlotView::Keep(j)));
                let q = choose|q: int| 0 <= q < prev.len() && prev[q] == SlotView::Keep(j);
                assert(kept_slots(n, rem)[q] == SlotView::Keep(j));
            } else {
                assert(kept_slots(n, rem)[prev.len() as int] == SlotView::Keep(j));
            }
        }
    }
}

/// A plan whose operations only insert keeps every statement and inserts
/// the `$inject` statement of an inserting operation for a declaration of
/// the list.
proof fn lemma_inserting_plan(
    stmts: Seq<Stmt>,
    pending: Seq<OpView>,
    rename: Map<Seq<char>, Seq<char>>,
    p: int,
    i: int,
)
    requires
        inserts_only(stmts, pending),
        0 <= p < pending.len(),
        0 <= i < stmts.len(),
        stmts[i].lo == pending[p].stmt_lo,
        pending[p].op != InjectOpKind::Remove,
        inject_indices(stmts, pending[p].name).len() == 0,
    ensures
        spec_layout(stmts, pending, rename).contains(
            SlotView::Insert(pending[p].name, pending[p].ident_lo, spec_annotation_strings(pending[p].params, rename)),
        ),
        forall|j: int| 0 <= j < stmts.len() ==> #[trigger] spec_layout(stmts, pending, rename).contains(SlotView::Keep(j)),
{
    let n = stmts.len() as int;
    let plan = plan_upto(stmts, pending, rename, n);
    let op = pending[p];
    let x = (i + 1, crate::visitor::op_slot(op, rename));
    assert(op_plan(stmts, i, op, rename).1[0] == x);
    assert(op_plan(stmts, i, op, rename).1.contains(x));
    lemma_ops_at_contains(pending, stmts[i].lo, p);
    assert(ops_at(pending, stmts[i].lo).contains(op));
    lemma_ops_plan_inserts(stmts, i, ops_at(pending, stmts[i].lo), rename, x);
    lemma_plan_upto_inserts(stmts, pending, rename, n, i, x);
    lemma_inserting_plan_removes_nothing(stmts, pending, rename, n);
    lemma_stable_sort_keeps(plan.1);
    assert(stable_sort(plan.1).contains(x));
    lemma_apply_inserts_keeps(kept_slots(n, plan.0), stable_sort(plan.1));
    assert(spec_layout(stmts, pending, rename) == apply_inserts(kept_slots(n, plan.0), stable_sort(plan.1)));
    assert(apply_inserts(kept_slots(n, plan.0), stable_sort(plan.1)).contains(x.1));
    lemma_kept_slots_all(n, plan.0);
    assert forall|j: int| 0 <= j < stmts.len() implies #[trigger] spec_layout(stmts, pending, rename).contains(SlotView::Keep(j)) by {
        assert(kept_slots(n, plan.0).contains(SlotView::Keep(j)));
    }
}

/// Adding annotations keeps every statement of a list and, for a
/// declaration in the list whose name has no `$inject` statement there yet,
/// inserts its `name.$inject = [...]` statement.
pub proof fn law_add_inserts(
    stmts: Seq<Stmt>,
    pending: Seq<OpView>,
    rename: Map<Seq<char>, Seq<char>>,
    p: int,
    i: int,
)
    requires
        all_add(pending),
        0 <= p < pending.len(),
        0 <= i < stmts.len(),
        stmts[i].lo == pending[p].stmt_lo,
        inject_indices(stmts, pending[p].name).len() == 0,
    ensures
        spec_layout(stmts, pending, rename).contains(crate::visitor::op_slot(pending[p], rename)),
        spec_layout(stmts, pending, rename).contains(
            SlotView::Insert(pending[p].name, pending[p].ident_lo, spec_annotation_strings(pending[p].params, rename)),
        ),
        forall|j: int| 0 <= j < stmts.len() ==> #[trigger] spec_layout(stmts, pending, rename).contains(SlotView::Keep(j)),
{
    assert forall|q: int| 0 <= q < pending.len() implies #[trigger] pending[q].op == InjectOpKind::Add
        || (pending[q].op == InjectOpKind::Rebuild && inject_indices(stmts, pending[q].name).len() == 0) by {
        assert(pending[q].op == InjectOpKind::Add);
    }
    assert(pending[p].op == InjectOpKind::Add);
    lemma_inserting_plan(stmts, pending, rename, p, i);
}

/// Every operation of `ops` rebuilds.
pub open spec fn all_rebuild(ops: Seq<OpView>) -> bool {
    forall|q: int| 0 <= q < ops.len() ==> #[trigger] ops[q].op == InjectOpKind::Rebuild
}

/// Rebuilding annotations where no pending name has a `$inject` statement
/// in a list keeps every statement of the list and, for each declaration in
/// the list, inserts its `name.$inject = [...]` statement.
pub proof fn law_rebuild_inserts(
    stmts: Seq<Stmt>,
    pending: Seq<OpView>,
    rename: Map<Seq<char>, Seq<char>>,
    p: int,
    i: int,
)
    requires
        all_rebuild(pending),
        forall|q: int| 0 <= q < pending.len() ==> #[trigger] inject_indices(stmts, pending[q].name).len() == 0,
        0 <= p < pending.len(),
        0 <= i < stmts.len(),
        stmts[i].lo == pending[p].stmt_lo,
    ensures
        spec_layout(stmts, pending, rename).contains(
            SlotView::Insert(pending[p].name, pending[p].ident_lo, spec_annotation_strings(pending[p].params, rename)),
        ),
        forall|j: int| 0 <= j < stmts.len() ==> #[trigger] spec_layout(stmts, pending, rename).contains(SlotView::Keep(j)),
{
    assert forall|q: int| 0 <= q < pending.len() implies #[trigger] pending[q].op == InjectOpKind::Add
        || (pending[q].op == InjectOpKind::Rebuild && inject_indices(stmts, pending[q].name).len() == 0) by {
        assert(pending[q].op == InjectOpKind::Rebuild);
        assert(inject_indices(stmts, pending[q].name).len() == 0);
    }
    assert(pending[p].op == InjectOpKind::Rebuild);
    assert(inject_indices(stmts, pending[p].name).len() == 0);
    lemma_inserting_plan(stmts, pending, rename, p, i);
}

/// A statement `name.$inject = ..` on an identifier spelled `name`, as
/// `make_inject_stmt` builds, is recognised as the `$inject` statement of
/// `name`, so that removing or rebuilding annotations finds it again.
pub proof fn law_made_inject_stmt_recognised(s: Stmt, name: Seq<char>)
    requires
        inject_stmt_parts(s) matches Some((obj, _)) && obj matches Expr::Ident(id) && id.name@ == name,
    ensures
        spec_is_inject_stmt(s, name),
{
}

/// A function expression without a prologue directive follows its leading
/// comments: a first comment with `@ngNoInject` blocks it; one with
/// `@ngInject` (and no `@ngNoInject`) makes it an explicit request and a
/// suspect at its position.
pub proof fn law_fn_expr_comment_request(c: ScanView, f: FnExpr)
    requires
        f.function.body is None || f.function.body->0@.len() == 0 || f.function.body->0@[0] is Other,
        f.function.comments@.len() > 0,
    ensures
        seq_contains(f.function.comments@[0]@, "@ngNoInject"@) ==> spec_scan_fn_expr(c, f).blocked.contains(f.function.lo),
        seq_contains(f.function.comments@[0]@, "@ngInject"@) && !seq_contains(f.function.comments@[0]@, "@ngNoInject"@) ==> {
            &&& spec_scan_fn_expr(c, f).explicit.contains(f.function.lo)
            &&& has_suspect_at(spec_scan_fn_expr(c, f), f.function.lo)
        },
{
    lemma_request_recorded(c, f.function.lo, spec_scan_fn_expr(c, f), request_or_comments(spec_from_opt(spec_function_directive(f.function)), f.function.comments@));
}

/// An arrow function without a prologue directive follows its leading
/// comments in the same way.
pub proof fn law_arrow_comment_request(c: ScanView, a: ArrowExpr)
    requires
        a.body is Expr || a.body->Block_0@.len() == 0 || a.body->Block_0@[0] is Other,
        a.comments@.len() > 0,
    ensures
        seq_contains(a.comments@[0]@, "@ngNoInject"@) ==> spec_scan_arrow(c, a).blocked.contains(a.lo),
        seq_contains(a.comments@[0]@, "@ngInject"@) && !seq_contains(a.comments@[0]@, "@ngNoInject"@) ==> {
            &&& spec_scan_arrow(c, a).explicit.contains(a.lo)
            &&& has_suspect_at(spec_scan_arrow(c, a), a.lo)
        },
{
    let c1 = match arrow_body_object(a) {
        Some(o) => directive_controller_step(c, o),
        None => c,
    };
    lemma_request_recorded(c1, a.lo, spec_scan_arrow(c, a), request_or_comments(spec_from_opt(spec_arrow_directive(a)), a.comments@));
}

/// What recording a request at `lo` leaves.
proof fn lemma_request_recorded(c: ScanView, lo: u32, after: ScanView, r: NgInjectResult)
    requires
        after == spec_apply_request(c, lo, r),
    ensures
        r == NgInjectResult::NoInject ==> after.blocked.contains(lo),
        r == NgInjectResult::Inject ==> after.explicit.contains(lo) && has_suspect_at(after, lo),
{
    if r == NgInjectResult::NoInject {
        assert(seq_insert(c.blocked, lo).contains(lo)) by {
            if !c.blocked.contains(lo) {
                assert(c.blocked.push(lo)[c.blocked.len() as int] == lo);
            }
        }
    } else if r == NgInjectResult::Inject {
        let c0 = ScanView { explicit: seq_insert(c.explicit, lo), ..c };
        assert(seq_insert(c.explicit, lo).contains(lo)) by {
            if !c.explicit.contains(lo) {
                assert(c.explicit.push(lo)[c.explicit.len() as int] == lo);
            }
        }
        if !has_suspect_at(c0, lo) {
            assert(after.suspects[c0.suspects.len() as int].target_lo == lo);
        }
    }
}

/// The class edit of a class with an `ngInject` request: rebuilding always
/// drops the static `$inject` properties and, when the constructor has
/// parameters, adds one with their annotation strings, whether or not the
/// class had one; adding adds those strings only to a class without one;
/// removing only drops.
pub proof fn law_class_edit_modes(c: ScanView, rename: Map<Seq<char>, Seq<char>>, class: Class, d: ClassDecl)
    ensures
        c.explicit.contains(class.lo) && ctor_params_of(class.members@).len() > 0 ==> {
            &&& spec_class_expr_edit(c, Mode::Rebuild, rename, class) == Some(ClassEditView {
                remove_existing: true,
                add: Some(spec_annotation_strings(ctor_params_of(class.members@), rename)),
            })
            &&& spec_class_expr_edit(c, Mode::Add, rename, class) == (if spec_class_has_static_inject(class) {
                None
            } else {
                Some(ClassEditView {
                    remove_existing: false,
                    add: Some(spec_annotation_strings(ctor_params_of(class.members@), rename)),
                })
            })
        },
        c.explicit.contains(class.lo) ==> spec_class_expr_edit(c, Mode::Remove, rename, class)
            == Some(ClassEditView { remove_existing: true, add: None }),
        !c.explicit.contains(class.lo) ==> spec_class_expr_edit(c, Mode::Rebuild, rename, class) is None,
        c.explicit.contains(d.class.lo) && c.decl_map.contains_key(d.ident.name@)
            && c.decl_map[d.ident.name@].params.len() > 0 ==> spec_class_decl_edit(c, Mode::Rebuild, rename, d)
            == Some(ClassEditView {
                remove_existing: true,
                add: Some(spec_annotation_strings(c.decl_map[d.ident.name@].params, rename)),
            }),
        c.explicit.contains(d.class.lo) ==> spec_class_decl_edit(c, Mode::Remove, rename, d)
            == Some(ClassEditView { remove_existing: true, add: None }),
{
}

/// The module methods whose second argument is injected when the first is
/// a name: every module method but `value`, `constant`, `bootstrap`,
/// `config`, `run` and `component`.
pub open spec fn is_named_registration(m: Seq<char>) -> bool {
    ||| m == "provider"@
    ||| m == "factory"@
    ||| m == "directive"@
    ||| m == "filter"@
    ||| m == "controller"@
    ||| m == "service"@
    ||| m == "animation"@
    ||| m == "invoke"@
    ||| m == "store"@
    ||| m == "decorator"@
}

/// On a module chain, `chain.method("name", x)` for a registering method
/// gives exactly one target: argument 1, with the method's name and the
/// registered name at argument 0; and the chain goes on.
pub proof fn law_chained_registration_targets(
    call: CallExpr,
    obj: Expr,
    m: Seq<char>,
    args: Seq<Expr>,
    pattern: Seq<char>,
    adf: bool,
)
    requires
        spec_method_call(call) == Some((obj, m, args)),
        is_named_registration(m),
        !is_ident_named(obj, "$injector"@),
        !is_ident_named(obj, "$provide"@),
        !is_ident_named(obj, "$stateProvider"@),
        args.len() == 2,
        args[0] is Str,
    ensures
        spec_match_call(call, Some(CHAINED_REGULAR), pattern, adf) == Some(
            (DecisionView {
                targets: seq![
                    (TargetView {
                        arg_index: 1,
                        method_name: Some(m),
                        rename_name_arg_index: Some(0),
                        context_dependent: false,
                        sub_targets: Seq::empty(),
                    }),
                ],
                chain_kind: Some(CHAINED_REGULAR),
            }),
        ),
{
    assert(spec_match_injector_invoke(obj, m, args) is None);
    assert(spec_match_provide(obj, m, args) is None);
    assert(is_regular_method(m));
    lemma_registration_names(m);
    assert(spec_match_regular(obj, m, args, Some(CHAINED_REGULAR), pattern) == crate::matchers::one(
        crate::matchers::target(1, m, Some(0), Seq::empty()),
        Some(CHAINED_REGULAR),
    ));
}

/// A registering method is none of the other module methods.
proof fn lemma_registration_names(m: Seq<char>)
    requires
        is_named_registration(m),
    ensures
        m != "value"@ && m != "constant"@ && m != "bootstrap"@,
        m != "config"@ && m != "run"@ && m != "component"@ && m != "module"@,
{
    if m == "provider"@ {
        reveal_strlit("provider");
        reveal_strlit("value");
        reveal_strlit("constant");
        reveal_strlit("bootstrap");
        reveal_strlit("config");
        reveal_strlit("run");
        reveal_strlit("component");
        reveal_strlit("module");
        assert("provider"@.len() != "value"@.len());
        assert("provider"@[0] != "constant"@[0]);
        assert("provider"@.len() != "bootstrap"@.len());
        assert("provider"@.len() != "config"@.len());
        assert("provider"@.len() != "run"@.len());
        assert("provider"@.len() != "component"@.len());
        assert("provider"@.len() != "module"@.len());
    }
    if m == "factory"@ {
        reveal_strlit("factory");
        reveal_strlit("value");
        reveal_strlit("constant");
        reveal_strlit("bootstrap");
        reveal_strlit("config");
        reveal_strlit("run");
        reveal_strlit("component");
        reveal_strlit("module");
        assert("factory"@.len() != "value"@.len());
        assert("factory"@.len() != "constant"@.len());
        assert("factory"@.len() != "bootstrap"@.len());
        assert("factory"@.len() != "config"@.len());
        assert("factory"@.len() != "run"@.len());
        assert("factory"@.len() != "component"@.len());
        assert("factory"@.len() != "module"@.len());
    }
    if m == "directive"@ {
        reveal_strlit("directive");
        reveal_strlit("value");
        reveal_strlit("constant");
        reveal_strlit("bootstrap");
        reveal_strlit("config");
        reveal_strlit("run");
        reveal_strlit("component");
        reveal_strlit("module");
        assert("directive"@.len() != "value"@.len());
        assert("directive"@.len() != "constant"@.len());
        assert("directive"@[0] != "bootstrap"@[0]);
        assert("directive"@.len() != "config"@.len());
        assert("directive"@.len() != "run"@.len());
        assert("directive"@[0] != "component"@[0]);
        assert("directive"@.len() != "module"@.len());
    }
    if m == "filter"@ {
        reveal_strlit("filter");
        reveal_strlit("value");
        reveal_strlit("constant");
        reveal_strlit("bootstrap");
        reveal_strlit("config");
        reveal_strlit("run");
        reveal_strlit("component");
        reveal_strlit("module");
        assert("filter"@.len() != "value"@.len());
        assert("filter"@.len() != "constant"@.len());
        assert("filter"@.len() != "bootstrap"@.len());
        assert("filter"@[0] != "config"@[0]);
        assert("filter"@.len() != "run"@.len());
        assert("filter"@.len() != "component"@.len());
        assert("filter"@[0] != "module"@[0]);
    }
    if m == "controller"@ {
        reveal_strlit("controller");
        reveal_strlit("value");
        reveal_strlit("constant");
        reveal_strlit("bootstrap");
        reveal_strlit("config");
        reveal_strlit("run");
        reveal_strlit("component");
        reveal_strlit("module");
        assert("controller"@.len() != "value"@.len());
        assert("controller"@.len() != "constant"@.len());
        assert("controller"@.len() != "bootstrap"@.len());
        assert("controller"@.len() != "config"@.len());
        assert("controller"@.len() != "run"@.len());
        assert("controller"@.len() != "component"@.len());
        assert("controller"@.len() != "module"@.len());
    }
    if m == "service"@ {
        reveal_strlit("service");
        reveal_strlit("value");
        reveal_strlit("constant");
        reveal_strlit("bootstrap");
        reveal_strlit("config");
        reveal_strlit("run");
        reveal_strlit("component");
        reveal_strlit("module");
        assert("service"@.len() != "value"@.len());
        assert("service"@.len() != "constant"@.len());
        assert("service"@.len() != "bootstrap"@.len());
        assert("service"@.len() != "config"@.len());
        assert("service"@.len() != "run"@.len());
        assert("service"@.len() != "component"@.len());
        assert("service"@.len() != "module"@.len());
    }
    if m == "animation"@ {
        reveal_strlit("animation");
        reveal_strlit("value");
        reveal_strlit("constant");
        reveal_strlit("bootstrap");
        reveal_strlit("config");
        reveal_strlit("run");
        reveal_strlit("component");
        reveal_strlit("module");
        assert("animation"@.len() != "value"@.len());
        assert("animation"@.len() != "constant"@.len());
        assert("animation"@[0] != "bootstrap"@[0]);
        assert("animation"@.len() != "config"@.len());
        assert("animation"@.len() != "run"@.len());
        assert("animation"@[0] != "component"@[0]);
        assert("animation"@.len() != "module"@.len());
    }
    if m == "invoke"@ {
        reveal_strlit("invoke");
        reveal_strlit("value");
        reveal_strlit("constant");
        reveal_strlit("bootstrap");
        reveal_strlit("config");
        reveal_strlit("run");
        reveal_strlit("component");
        reveal_strlit("module");
        assert("invoke"@.len() != "value"@.len());
        assert("invoke"@.len() != "constant"@.len());
        assert("invoke"@.len() != "bootstrap"@.len());
        assert("invoke"@[0] != "config"@[0]);
        assert("invoke"@.len() != "run"@.len());
        assert("invoke"@.len() != "component"@.len());
        assert("invoke"@[0] != "module"@[0]);
    }
    if m == "store"@ {
        reveal_strlit("store");
        reveal_strlit("value");
        reveal_strlit("constant");
        reveal_strlit("bootstrap");
        reveal_strlit("config");
        reveal_strlit("run");
        reveal_strlit("component");
        reveal_strlit("module");
        assert("store"@[0] != "value"@[0]);
        assert("store"@.len() != "constant"@.len());
        assert("store"@.len() != "bootstrap"@.len());
        assert("store"@.len() != "config"@.len());
        assert("store"@.len() != "run"@.len());
        assert("store"@.len() != "component"@.len());
        assert("store"@.len() != "module"@.len());
    }
    if m == "decorator"@ {
        reveal_strlit("decorator");
        reveal_strlit("value");
        reveal_strlit("constant");
        reveal_strlit("bootstrap");
        reveal_strlit("config");
        reveal_strlit("run");
        reveal_strlit("component");
        reveal_strlit("module");
        assert("decorator"@.len() != "value"@.len());
        assert("decorator"@.len() != "constant"@.len());
        assert("decorator"@[0] != "bootstrap"@[0]);
        assert("decorator"@.len() != "config"@.len());
        assert("decorator"@.len() != "run"@.len());
        assert("decorator"@[0] != "component"@[0]);
        assert("decorator"@.len() != "module"@.len());
    }
}

/// The names that tell a ui-router state call from the other calls.
proof fn lemma_state_names()
    ensures
        "state"@ != "provider"@ && "state"@ != "value"@ && "state"@ != "constant"@ && "state"@ != "bootstrap"@ && "state"@ != "config"@ && "state"@ != "factory"@ && "state"@ != "directive"@ && "state"@ != "filter"@ && "state"@ != "run"@ && "state"@ != "controller"@ && "state"@ != "service"@ && "state"@ != "animation"@ && "state"@ != "invoke"@ && "state"@ != "store"@ && "state"@ != "decorator"@ && "state"@ != "component"@ && "state"@ != "module"@ && "state"@ != "when"@ && "state"@ != "open"@ && "state"@ != "show"@,
        "$stateProvider"@ != "$provide"@ && "$stateProvider"@ != "angular"@ && "$stateProvider"@ != "$routeProvider"@ && "$stateProvider"@ != "$urlRouterProvider"@ && "$stateProvider"@ != "$injector"@,
        "views"@ != "resolve"@,
{
    assert("state"@ != "provider"@ && "state"@ != "value"@ && "state"@ != "constant"@ && "state"@ != "bootstrap"@ && "state"@ != "config"@ && "state"@ != "factory"@ && "state"@ != "directive"@ && "state"@ != "filter"@ && "state"@ != "run"@ && "state"@ != "controller"@ && "state"@ != "service"@ && "state"@ != "animation"@ && "state"@ != "invoke"@ && "state"@ != "store"@ && "state"@ != "decorator"@ && "state"@ != "component"@ && "state"@ != "module"@ && "state"@ != "when"@ && "state"@ != "open"@ && "state"@ != "show"@) by {
        reveal_strlit("state");
        reveal_strlit("provider");
        reveal_strlit("value");
        reveal_strlit("constant");
        reveal_strlit("bootstrap");
        reveal_strlit("config");
        reveal_strlit("factory");
        reveal_strlit("directive");
        reveal_strlit("filter");
        reveal_strlit("run");
        reveal_strlit("controller");
        reveal_strlit("service");
        reveal_strlit("animation");
        reveal_strlit("invoke");
        reveal_strlit("store");
        reveal_strlit("decorator");
        reveal_strlit("component");
        reveal_strlit("module");
        reveal_strlit("when");
        reveal_strlit("open");
        reveal_strlit("show");
        assert("state"@.len() != "provider"@.len());
        assert("state"@[0] != "value"@[0]);
        assert("state"@.len() != "constant"@.len());
        assert("state"@.len() != "bootstrap"@.len());
        assert("state"@.len() != "config"@.len());
        assert("state"@.len() != "factory"@.len());
        assert("state"@.len() != "directive"@.len());
        assert("state"@.len() != "filter"@.len());
        assert("state"@.len() != "run"@.len());
        assert("state"@.len() != "controller"@.len());
        assert("state"@.len() != "service"@.len());
        assert("state"@.len() != "animation"@.len());
        assert("state"@.len() != "invoke"@.len());
        assert("state"@[2] != "store"@[2]);
        assert("state"@.len() != "decorator"@.len());
        assert("state"@.len() != "component"@.len());
        assert("state"@.len() != "module"@.len());
        assert("state"@.len() != "when"@.len());
        assert("state"@.len() != "open"@.len());
        assert("state"@.len() != "show"@.len());
    }
    assert("$stateProvider"@ != "$provide"@ && "$stateProvider"@ != "angular"@ && "$stateProvider"@ != "$routeProvider"@ && "$stateProvider"@ != "$urlRouterProvider"@ && "$stateProvider"@ != "$injector"@) by {
        reveal_strlit("$stateProvider");
        reveal_strlit("$provide");
        reveal_strlit("angular");
        reveal_strlit("$routeProvider");
        reveal_strlit("$urlRouterProvider");
        reveal_strlit("$injector");
        assert("$stateProvider"@.len() != "$provide"@.len());
        assert("$stateProvider"@.len() != "angular"@.len());
        assert("$stateProvider"@[1] != "$routeProvider"@[1]);
        assert("$stateProvider"@.len() != "$urlRouterProvider"@.len());
        assert("$stateProvider"@.len() != "$injector"@.len());
    }
    assert("views"@ != "resolve"@) by {
        reveal_strlit("views");
        reveal_strlit("resolve");
        assert("views"@.len() != "resolve"@.len());
    }
}

/// A suspect in a list that is recorded is then recorded at its position.
proof fn lemma_add_all_has(c: ScanView, es: Seq<SuspectView>, x: SuspectView)
    requires
        es.contains(x),
    ensures
        has_suspect_at(add_all(c, es), x.target_lo),
    decreases es.len(),
{
    let prev = add_all(c, es.drop_last());
    if es.last() == x {
        if !has_suspect_at(prev, x.target_lo) {
            assert(add_all(c, es).suspects[prev.suspects.len() as int].target_lo == x.target_lo);
        }
    } else {
        let q = choose|q: int| 0 <= q < es.len() && es[q] == x;
        assert(es.drop_last()[q] == x);
        assert(es.drop_last().contains(x));
        lemma_add_all_has(c, es.drop_last(), x);
        let w = choose|w: int| 0 <= w < prev.suspects.len() && #[trigger] prev.suspects[w].target_lo == x.target_lo;
        assert(add_all(c, es).suspects[w].target_lo == x.target_lo);
    }
}

/// Whatever a part of a concatenation holds, the concatenation holds.
proof fn lemma_concat_contains<A>(a: Seq<A>, b: Seq<A>, x: A)
    ensures
        a.contains(x) ==> (a + b).contains(x),
        b.contains(x) ==> (a + b).contains(x),
{
    if a.contains(x) {
        let q = choose|q: int| 0 <= q < a.len() && a[q] == x;
        assert((a + b)[q] == x);
    }
    if b.contains(x) {
        let q = choose|q: int| 0 <= q < b.len() && b[q] == x;
        assert((a + b)[a.len() + q] == x);
    }
}

/// The suspects of every named view are among those of the views.
proof fn lemma_view_props_has(ps: Seq<PropOrSpread>, m: Option<Seq<char>>, k: int, x: SuspectView)
    requires
        0 <= k < ps.len(),
        one_view_entries(ps[k], m).contains(x),
    ensures
        view_props_entries(ps, m).contains(x),
    decreases ps.len(),
{
    if k == ps.len() - 1 {
        lemma_concat_contains(view_props_entries(ps.drop_last(), m), one_view_entries(ps.last(), m), x);
    } else {
        assert(ps.drop_last()[k] == ps[k]);
        lemma_view_props_has(ps.drop_last(), m, k, x);
        lemma_concat_contains(view_props_entries(ps.drop_last(), m), one_view_entries(ps.last(), m), x);
    }
}

/// In `$stateProvider.state(.., { views: { name: { .. } } })` the value of
/// the `controller`, `controllerProvider` or `templateProvider` property of
/// every named view is recorded as a suspect at its position.
pub proof fn law_state_view_suspects(
    c: ScanView,
    call: CallExpr,
    obj: Expr,
    args: Seq<Expr>,
    pattern: Seq<char>,
    adf: bool,
    o: ObjectLit,
    vo: ObjectLit,
    k: int,
    view: ObjectLit,
    name: Seq<char>,
)
    requires
        spec_method_call(call) == Some((obj, "state"@, args)),
        is_ident_named(obj, "$stateProvider"@),
        !c.chain_kinds.contains_key(obj.spec_lo()),
        1 <= args.len() <= 2,
        args.last() == Expr::Object(o),
        spec_prop_value("views"@, o.props@) == Some(Expr::Object(vo)),
        0 <= k < vo.props@.len(),
        vo.props@[k] matches PropOrSpread::KeyValue(kv) && *kv.value == Expr::Object(view),
        name == "controller"@ || name == "controllerProvider"@ || name == "templateProvider"@,
        spec_prop_value(name, view.props@) is Some,
    ensures
        has_suspect_at(spec_scan_call(c, call, pattern, adf), spec_prop_value(name, view.props@)->0.spec_lo()),
{
    lemma_state_names();
    let m: Option<Seq<char>> = Some("state"@);
    let v = spec_prop_value(name, view.props@)->0;
    assert(spec_callee_chain_kind(c, call) is None);
    assert(spec_match_injector_invoke(obj, "state"@, args) is None);
    assert(spec_match_provide(obj, "state"@, args) is None);
    assert(!is_regular_method("state"@));
    assert(spec_match_regular(obj, "state"@, args, None, pattern) is None);
    assert(spec_match_ng_route(obj, "state"@, args, None) is None);
    assert(spec_match_material_modal(obj, "state"@, args) is None);
    let idx: int = args.len() - 1;
    let t = crate::matchers::target(idx as usize, "state"@, None, state_subs());
    assert(args[idx] == Expr::Object(o));
    assert(spec_match_ng_ui(obj, "state"@, args, None) == crate::matchers::one(t, Some(CHAINED_STATE_PROVIDER)));
    assert(spec_match_call(call, None, pattern, adf) == crate::matchers::one(t, Some(CHAINED_STATE_PROVIDER)));
    let c1 = spec_mark(c, call.lo, Some(CHAINED_STATE_PROVIDER));
    let es = targets_entries(call, seq![t]);
    assert(seq![t].drop_last() =~= Seq::<TargetView>::empty());
    assert(seq![t].last() == t);
    assert(targets_entries(call, Seq::<TargetView>::empty()) == Seq::<SuspectView>::empty());
    assert(es == targets_entries(call, Seq::<TargetView>::empty()) + target_entries(call, t));
    assert(es =~= target_entries(call, t));
    assert(call.args@ == args);
    let subs = state_subs();
    assert(target_entries(call, t) == subs_entries(o, subs));
    let vp = seq!["views"@];
    assert(subs.last() == crate::matchers::sub_at(vp, "state"@));
    assert(subs_entries(o, subs) == subs_entries(o, subs.drop_last()) + sub_entries(o, vp, m));
    assert(vp[0] == "views"@);
    assert(sub_entries(o, vp, m) == views_entries(o.props@, m));
    assert(views_entries(o.props@, m) == view_props_entries(vo.props@, m));
    let x = entry(v.spec_lo(), m, false, ident_name(v), None, false);
    let nc = named_entry(view.props@, "controller"@, m);
    let np = named_entry(view.props@, "controllerProvider"@, m);
    let nt = named_entry(view.props@, "templateProvider"@, m);
    let nr = resolve_entries(view.props@, m);
    assert(one_view_entries(vo.props@[k], m) == nc + np + nt + nr);
    assert(named_entry(view.props@, name, m)[0] == x);
    assert(named_entry(view.props@, name, m).contains(x));
    lemma_concat_contains(nc, np, x);
    lemma_concat_contains(nc + np, nt, x);
    lemma_concat_contains(nc + np + nt, nr, x);
    lemma_view_props_has(vo.props@, m, k, x);
    lemma_concat_contains(subs_entries(o, subs.drop_last()), sub_entries(o, vp, m), x);
    lemma_add_all_has(c1, es, x);
}

/// A body whose first statement is the directive `"ngInject"` requests
/// injection; one whose first is `"ngNoInject"` refuses it.
proof fn lemma_first_directive(b: Seq<BodyStmt>)
    requires
        b.len() > 0,
    ensures
        b[0] matches BodyStmt::Str(Some(t)) && t@ == "ngInject"@ ==> spec_prologue(b) == Some(true),
        b[0] matches BodyStmt::Str(Some(t)) && t@ == "ngNoInject"@ ==> spec_prologue(b) == Some(false),
{
    assert("ngNoInject"@ != "ngInject"@) by {
        reveal_strlit("ngNoInject");
        reveal_strlit("ngInject");
        assert("ngNoInject"@.len() != "ngInject"@.len());
    }
}

/// A function expression whose body starts with `"ngInject"` is an explicit
/// request and a suspect at its position; one that starts with
/// `"ngNoInject"` is blocked there.
pub proof fn law_fn_expr_prologue_request(c: ScanView, f: FnExpr)
    requires
        f.function.body matches Some(b) && b@.len() > 0,
    ensures
        f.function.body->0@[0] matches BodyStmt::Str(Some(t)) && t@ == "ngInject"@ ==> {
            &&& spec_scan_fn_expr(c, f).explicit.contains(f.function.lo)
            &&& has_suspect_at(spec_scan_fn_expr(c, f), f.function.lo)
        },
        f.function.body->0@[0] matches BodyStmt::Str(Some(t)) && t@ == "ngNoInject"@
            ==> spec_scan_fn_expr(c, f).blocked.contains(f.function.lo),
{
    lemma_first_directive(f.function.body->0@);
    lemma_request_recorded(c, f.function.lo, spec_scan_fn_expr(c, f), request_or_comments(spec_from_opt(spec_function_directive(f.function)), f.function.comments@));
}

/// A function declaration is recorded under its name with its parameters
/// and its statement; without a prologue directive, its own leading
/// comments, or else those of its statement, decide its request.
pub proof fn law_fn_decl_scan(c: ScanView, d: FnDecl, stmt_lo: u32, stmt_comments: Seq<String>)
    requires
        d.function.body is None || d.function.body->0@.len() == 0 || d.function.body->0@[0] is Other,
    ensures
        ({
            let after = spec_scan_fn_decl(c, d, stmt_lo, stmt_comments);
            &&& after.decl_map.contains_key(d.ident.name@)
            &&& after.decl_map[d.ident.name@].params == param_names(d.function.params@)
            &&& after.decl_map[d.ident.name@].stmt_lo == stmt_lo
            &&& d.function.comments@.len() > 0 && seq_contains(d.function.comments@[0]@, "@ngInject"@)
                && !seq_contains(d.function.comments@[0]@, "@ngNoInject"@) ==> after.explicit.contains(d.function.lo)
                && has_suspect_at(after, d.function.lo)
            &&& d.function.comments@.len() > 0 && seq_contains(d.function.comments@[0]@, "@ngNoInject"@)
                ==> after.blocked.contains(d.function.lo)
            &&& d.function.comments@.len() == 0 && stmt_comments.len() > 0 && seq_contains(stmt_comments[0]@, "@ngInject"@)
                && !seq_contains(stmt_comments[0]@, "@ngNoInject"@) ==> after.explicit.contains(d.function.lo)
                && has_suspect_at(after, d.function.lo)
        }),
{
    let c1 = spec_insert_decl(c, DeclView {
        params: param_names(d.function.params@),
        stmt_lo,
        name: d.ident.name@,
        decl_kind: DeclKind::FnDecl,
    });
    let r = decl_request(spec_from_opt(spec_function_directive(d.function)), d.function.comments@, stmt_comments);
    lemma_request_recorded(c1, d.function.lo, spec_scan_fn_decl(c, d, stmt_lo, stmt_comments), r);
}

/// A variable initialised with a function or arrow function is recorded
/// under its name with its statement; when the function has no prologue
/// directive, the leading comments of the statement decide the request at
/// the declarator.
pub proof fn law_var_decl_scan(c: ScanView, d: VarDeclarator, stmt_lo: u32, stmt_comments: Seq<String>)
    requires
        d.name is Some,
        d.init matches Some(init) && (*init matches Expr::Fn(f) && (f.function.body is None
            || f.function.body->0@.len() == 0 || f.function.body->0@[0] is Other)),
    ensures
        ({
            let after = spec_scan_var_declarator(c, d, stmt_lo, stmt_comments);
            let name = d.name->0.name@;
            &&& after.decl_map.contains_key(name)
            &&& after.decl_map[name].stmt_lo == stmt_lo
            &&& stmt_comments.len() > 0 && seq_contains(stmt_comments[0]@, "@ngInject"@)
                && !seq_contains(stmt_comments[0]@, "@ngNoInject"@) ==> after.explicit.contains(d.lo) && has_suspect_at(after, d.lo)
            &&& stmt_comments.len() > 0 && seq_contains(stmt_comments[0]@, "@ngNoInject"@) ==> after.blocked.contains(d.lo)
        }),
{
    let c1 = var_decl_step(c, d, stmt_lo);
    lemma_request_recorded(c1, d.lo, spec_scan_var_declarator(c, d, stmt_lo, stmt_comments), var_request(d, stmt_comments));
}

/// `$injector.invoke(f, ..)` injects its first argument and starts no
/// chain.
pub proof fn law_injector_invoke_target(
    call: CallExpr,
    obj: Expr,
    m: Seq<char>,
    args: Seq<Expr>,
    chain: Option<u8>,
    pattern: Seq<char>,
    adf: bool,
    o: ObjectLit,
)
    requires
        spec_method_call(call) == Some((obj, "invoke"@, args)),
        is_ident_named(obj, "$injector"@),
        args.len() > 0,
    ensures
        spec_match_call(call, chain, pattern, adf) == Some(
            (DecisionView {
                targets: seq![(TargetView {
                arg_index: 0,
                method_name: Some("invoke"@),
                rename_name_arg_index: None,
                context_dependent: false,
                sub_targets: Seq::empty(),
            })],
                chain_kind: None,
            }),
        ),
{
}

/// `$provide.service|factory|provider|decorator("name", f)` injects its
/// second argument, registered under the first, and starts no chain.
pub proof fn law_provide_target(
    call: CallExpr,
    obj: Expr,
    m: Seq<char>,
    args: Seq<Expr>,
    chain: Option<u8>,
    pattern: Seq<char>,
    adf: bool,
    o: ObjectLit,
)
    requires
        spec_method_call(call) == Some((obj, m, args)),
        is_ident_named(obj, "$provide"@),
        m == "service"@ || m == "factory"@ || m == "provider"@ || m == "decorator"@,
        args.len() == 2,
    ensures
        spec_match_call(call, chain, pattern, adf) == Some(
            (DecisionView {
                targets: seq![(TargetView {
                arg_index: 1,
                method_name: Some(m),
                rename_name_arg_index: Some(0),
                context_dependent: false,
                sub_targets: Seq::empty(),
            })],
                chain_kind: None,
            }),
        ),
{
    assert("$provide"@ != "$injector"@) by {
        reveal_strlit("$provide");
        reveal_strlit("$injector");
        assert("$provide"@.len() != "$injector"@.len());
    }
}

/// `angular.module("name", [..], ..)` starts a module chain and injects
/// its last argument; `angular.module("name")` only starts the chain.
pub proof fn law_angular_module_chain(
    call: CallExpr,
    obj: Expr,
    m: Seq<char>,
    args: Seq<Expr>,
    chain: Option<u8>,
    pattern: Seq<char>,
    adf: bool,
    o: ObjectLit,
)
    requires
        spec_method_call(call) == Some((obj, "module"@, args)),
        is_ident_named(obj, "angular"@),
    ensures
        args.len() >= 2 ==> spec_match_call(call, chain, pattern, adf) == Some(
            (DecisionView {
                targets: seq![(TargetView {
                arg_index: (args.len() - 1) as usize,
                method_name: Some("module"@),
                rename_name_arg_index: None,
                context_dependent: false,
                sub_targets: Seq::empty(),
            })],
                chain_kind: Some(CHAINED_REGULAR),
            }),
        ),
        args.len() < 2 ==> spec_match_call(call, chain, pattern, adf) == Some(
            (DecisionView { targets: Seq::empty(), chain_kind: Some(CHAINED_REGULAR) }),
        ),
{
    assert("module"@ != "invoke"@) by {
        reveal_strlit("module");
        reveal_strlit("invoke");
        assert("module"@[0] != "invoke"@[0]);
    }
    assert("angular"@ != "$provide"@) by {
        reveal_strlit("angular");
        reveal_strlit("$provide");
        assert("angular"@.len() != "$provide"@.len());
    }
}

/// `$routeProvider.when(path, { controller: .., resolve: .. })` injects the
/// controller and the resolve functions of its route object and continues
/// the route provider's chain.
pub proof fn law_route_when_target(
    call: CallExpr,
    obj: Expr,
    m: Seq<char>,
    args: Seq<Expr>,
    chain: Option<u8>,
    pattern: Seq<char>,
    adf: bool,
    o: ObjectLit,
)
    requires
        spec_method_call(call) == Some((obj, "when"@, args)),
        is_ident_named(obj, "$routeProvider"@),
        args.len() == 2,
        args[1] == Expr::Object(o),
        spec_prop_value("controller"@, o.props@) is Some || spec_prop_value("resolve"@, o.props@) is Some,
    ensures
        ({
            let d = spec_match_call(call, None, pattern, adf);
            &&& d is Some
            &&& d->0.chain_kind == Some(CHAINED_ROUTE_PROVIDER)
            &&& d->0.targets.len() == 1
            &&& d->0.targets[0].arg_index == 1
            &&& d->0.targets[0].method_name == Some("when"@)
            &&& d->0.targets[0].rename_name_arg_index is None
            &&& spec_prop_value("controller"@, o.props@) is Some ==> d->0.targets[0].sub_targets.contains(
                (SubTargetView { prop_path: seq!["controller"@], method_name: Some("when"@) }),
            )
            &&& spec_prop_value("resolve"@, o.props@) is Some ==> d->0.targets[0].sub_targets.contains(
                (SubTargetView { prop_path: seq!["resolve"@], method_name: Some("when"@) }),
            )
        }),
{
    assert("when"@ != "provider"@ && "when"@ != "value"@ && "when"@ != "constant"@ && "when"@ != "bootstrap"@ && "when"@ != "config"@ && "when"@ != "factory"@ && "when"@ != "directive"@ && "when"@ != "filter"@ && "when"@ != "run"@ && "when"@ != "controller"@ && "when"@ != "service"@ && "when"@ != "animation"@ && "when"@ != "invoke"@ && "when"@ != "store"@ && "when"@ != "decorator"@ && "when"@ != "component"@) by {
        reveal_strlit("when");
        reveal_strlit("provider");
        reveal_strlit("value");
        reveal_strlit("constant");
        reveal_strlit("bootstrap");
        reveal_strlit("config");
        reveal_strlit("factory");
        reveal_strlit("directive");
        reveal_strlit("filter");
        reveal_strlit("run");
        reveal_strlit("controller");
        reveal_strlit("service");
        reveal_strlit("animation");
        reveal_strlit("invoke");
        reveal_strlit("store");
        reveal_strlit("decorator");
        reveal_strlit("component");
        assert("when"@.len() != "provider"@.len());
        assert("when"@.len() != "value"@.len());
        assert("when"@.len() != "constant"@.len());
        assert("when"@.len() != "bootstrap"@.len());
        assert("when"@.len() != "config"@.len());
        assert("when"@.len() != "factory"@.len());
        assert("when"@.len() != "directive"@.len());
        assert("when"@.len() != "filter"@.len());
        assert("when"@.len() != "run"@.len());
        assert("when"@.len() != "controller"@.len());
        assert("when"@.len() != "service"@.len());
        assert("when"@.len() != "animation"@.len());
        assert("when"@.len() != "invoke"@.len());
        assert("when"@.len() != "store"@.len());
        assert("when"@.len() != "decorator"@.len());
        assert("when"@.len() != "component"@.len());
    }
    assert("$routeProvider"@ != "$provide"@ && "$routeProvider"@ != "angular"@ && "$routeProvider"@ != "$stateProvider"@) by {
        reveal_strlit("$routeProvider");
        reveal_strlit("$provide");
        reveal_strlit("angular");
        reveal_strlit("$stateProvider");
        assert("$routeProvider"@.len() != "$provide"@.len());
        assert("$routeProvider"@.len() != "angular"@.len());
        assert("$routeProvider"@[1] != "$stateProvider"@[1]);
    }
    let subs = crate::matchers::controller_resolve_subs(o.props@, "when"@);
    let sc = crate::matchers::sub_at(seq!["controller"@], "when"@);
    let sr = crate::matchers::sub_at(seq!["resolve"@], "when"@);
    let a1 = if spec_prop_value("controller"@, o.props@) is Some { seq![sc] } else { Seq::empty() };
    let a2 = if spec_prop_value("resolve"@, o.props@) is Some { seq![sr] } else { Seq::empty() };
    assert(subs == a1 + a2);
    if spec_prop_value("controller"@, o.props@) is Some {
        assert(a1[0] == sc);
    }
    if spec_prop_value("resolve"@, o.props@) is Some {
        assert(a2[0] == sr);
    }
    lemma_concat_contains(a1, a2, sc);
    lemma_concat_contains(a1, a2, sr);
    assert(args.last() == args[1]);
}

/// `$uibModal.open({ controller: .., resolve: .. })` (and `$modal.open`)
/// injects the controller and the resolve functions of its options and
/// starts no chain.
pub proof fn law_modal_open_target(
    call: CallExpr,
    obj: Expr,
    m: Seq<char>,
    args: Seq<Expr>,
    chain: Option<u8>,
    pattern: Seq<char>,
    adf: bool,
    o: ObjectLit,
)
    requires
        spec_method_call(call) == Some((obj, "open"@, args)),
        is_ident_named(obj, "$uibModal"@) || is_ident_named(obj, "$modal"@),
        args.len() == 1,
        args[0] == Expr::Object(o),
        spec_prop_value("controller"@, o.props@) is Some || spec_prop_value("resolve"@, o.props@) is Some,
    ensures
        ({
            let d = spec_match_call(call, None, pattern, adf);
            &&& d is Some
            &&& d->0.chain_kind is None
            &&& d->0.targets.len() == 1
            &&& d->0.targets[0].arg_index == 0
            &&& d->0.targets[0].method_name == Some("open"@)
            &&& spec_prop_value("controller"@, o.props@) is Some ==> d->0.targets[0].sub_targets.contains(
                (SubTargetView { prop_path: seq!["controller"@], method_name: Some("open"@) }),
            )
            &&& spec_prop_value("resolve"@, o.props@) is Some ==> d->0.targets[0].sub_targets.contains(
                (SubTargetView { prop_path: seq!["resolve"@], method_name: Some("open"@) }),
            )
        }),
{
    assert("open"@ != "provider"@ && "open"@ != "value"@ && "open"@ != "constant"@ && "open"@ != "bootstrap"@ && "open"@ != "config"@ && "open"@ != "factory"@ && "open"@ != "directive"@ && "open"@ != "filter"@ && "open"@ != "run"@ && "open"@ != "controller"@ && "open"@ != "service"@ && "open"@ != "animation"@ && "open"@ != "invoke"@ && "open"@ != "store"@ && "open"@ != "decorator"@ && "open"@ != "component"@ && "open"@ != "when"@) by {
        reveal_strlit("open");
        reveal_strlit("provider");
        reveal_strlit("value");
        reveal_strlit("constant");
        reveal_strlit("bootstrap");
        reveal_strlit("config");
        reveal_strlit("factory");
        reveal_strlit("directive");
        reveal_strlit("filter");
        reveal_strlit("run");
        reveal_strlit("controller");
        reveal_strlit("service");
        reveal_strlit("animation");
        reveal_strlit("invoke");
        reveal_strlit("store");
        reveal_strlit("decorator");
        reveal_strlit("component");
        reveal_strlit("when");
        assert("open"@.len() != "provider"@.len());
        assert("open"@.len() != "value"@.len());
        assert("open"@.len() != "constant"@.len());
        assert("open"@.len() != "bootstrap"@.len());
        assert("open"@.len() != "config"@.len());
        assert("open"@.len() != "factory"@.len());
        assert("open"@.len() != "directive"@.len());
        assert("open"@.len() != "filter"@.len());
        assert("open"@.len() != "run"@.len());
        assert("open"@.len() != "controller"@.len());
        assert("open"@.len() != "service"@.len());
        assert("open"@.len() != "animation"@.len());
        assert("open"@.len() != "invoke"@.len());
        assert("open"@.len() != "store"@.len());
        assert("open"@.len() != "decorator"@.len());
        assert("open"@.len() != "component"@.len());
        assert("open"@[0] != "when"@[0]);
    }
    assert("$uibModal"@ != "$provide"@ && "$uibModal"@ != "angular"@ && "$uibModal"@ != "$stateProvider"@ && "$uibModal"@ != "$routeProvider"@) by {
        reveal_strlit("$uibModal");
        reveal_strlit("$provide");
        reveal_strlit("angular");
        reveal_strlit("$stateProvider");
        reveal_strlit("$routeProvider");
        assert("$uibModal"@.len() != "$provide"@.len());
        assert("$uibModal"@.len() != "angular"@.len());
        assert("$uibModal"@.len() != "$stateProvider"@.len());
        assert("$uibModal"@.len() != "$routeProvider"@.len());
    }
    assert("$modal"@ != "$provide"@ && "$modal"@ != "angular"@ && "$modal"@ != "$stateProvider"@ && "$modal"@ != "$routeProvider"@) by {
        reveal_strlit("$modal");
        reveal_strlit("$provide");
        reveal_strlit("angular");
        reveal_strlit("$stateProvider");
        reveal_strlit("$routeProvider");
        assert("$modal"@.len() != "$provide"@.len());
        assert("$modal"@.len() != "angular"@.len());
        assert("$modal"@.len() != "$stateProvider"@.len());
        assert("$modal"@.len() != "$routeProvider"@.len());
    }
    let subs = crate::matchers::controller_resolve_subs(o.props@, "open"@);
    let sc = crate::matchers::sub_at(seq!["controller"@], "open"@);
    let sr = crate::matchers::sub_at(seq!["resolve"@], "open"@);
    let a1 = if spec_prop_value("controller"@, o.props@) is Some { seq![sc] } else { Seq::empty() };
    let a2 = if spec_prop_value("resolve"@, o.props@) is Some { seq![sr] } else { Seq::empty() };
    assert(subs == a1 + a2);
    if spec_prop_value("controller"@, o.props@) is Some {
        assert(a1[0] == sc);
    }
    if spec_prop_value("resolve"@, o.props@) is Some {
        assert(a2[0] == sr);
    }
    lemma_concat_contains(a1, a2, sc);
    lemma_concat_contains(a1, a2, sr);
}

/// `$httpProvider.interceptors.push(f)` injects its first argument and
/// starts no chain.
pub proof fn law_http_interceptor_target(
    call: CallExpr,
    obj: Expr,
    m: Seq<char>,
    args: Seq<Expr>,
    chain: Option<u8>,
    pattern: Seq<char>,
    adf: bool,
    o: ObjectLit,
)
    requires
        spec_method_call(call) == Some((obj, "push"@, args)),
        obj matches Expr::Member(mm) && mm.prop matches MemberProp::Ident(p)
            && (p@ == "interceptors"@ || p@ == "responseInterceptors"@) && is_ident_named(*mm.obj, "$httpProvider"@),
        args.len() > 0,
    ensures
        spec_match_call(call, None, pattern, adf) == Some(
            (DecisionView {
                targets: seq![(TargetView {
                arg_index: 0,
                method_name: Some("push"@),
                rename_name_arg_index: None,
                context_dependent: false,
                sub_targets: Seq::empty(),
            })],
                chain_kind: None,
            }),
        ),
{
    assert("push"@ != "provider"@ && "push"@ != "value"@ && "push"@ != "constant"@ && "push"@ != "bootstrap"@ && "push"@ != "config"@ && "push"@ != "factory"@ && "push"@ != "directive"@ && "push"@ != "filter"@ && "push"@ != "run"@ && "push"@ != "controller"@ && "push"@ != "service"@ && "push"@ != "animation"@ && "push"@ != "invoke"@ && "push"@ != "store"@ && "push"@ != "decorator"@ && "push"@ != "component"@ && "push"@ != "when"@ && "push"@ != "open"@ && "push"@ != "show"@) by {
        reveal_strlit("push");
        reveal_strlit("provider");
        reveal_strlit("value");
        reveal_strlit("constant");
        reveal_strlit("bootstrap");
        reveal_strlit("config");
        reveal_strlit("factory");
        reveal_strlit("directive");
        reveal_strlit("filter");
        reveal_strlit("run");
        reveal_strlit("controller");
        reveal_strlit("service");
        reveal_strlit("animation");
        reveal_strlit("invoke");
        reveal_strlit("store");
        reveal_strlit("decorator");
        reveal_strlit("component");
        reveal_strlit("when");
        reveal_strlit("open");
        reveal_strlit("show");
        assert("push"@.len() != "provider"@.len());
        assert("push"@.len() != "value"@.len());
        assert("push"@.len() != "constant"@.len());
        assert("push"@.len() != "bootstrap"@.len());
        assert("push"@.len() != "config"@.len());
        assert("push"@.len() != "factory"@.len());
        assert("push"@.len() != "directive"@.len());
        assert("push"@.len() != "filter"@.len());
        assert("push"@.len() != "run"@.len());
        assert("push"@.len() != "controller"@.len());
        assert("push"@.len() != "service"@.len());
        assert("push"@.len() != "animation"@.len());
        assert("push"@.len() != "invoke"@.len());
        assert("push"@.len() != "store"@.len());
        assert("push"@.len() != "decorator"@.len());
        assert("push"@.len() != "component"@.len());
        assert("push"@[0] != "when"@[0]);
        assert("push"@[0] != "open"@[0]);
        assert("push"@[0] != "show"@[0]);
    }
}

/// `$controllerProvider.register("name", f)` injects its second argument,
/// registered under the first, and starts no chain.
pub proof fn law_controller_register_target(
    call: CallExpr,
    obj: Expr,
    m: Seq<char>,
    args: Seq<Expr>,
    chain: Option<u8>,
    pattern: Seq<char>,
    adf: bool,
    o: ObjectLit,
)
    requires
        spec_method_call(call) == Some((obj, "register"@, args)),
        is_ident_named(obj, "$controllerProvider"@),
        args.len() == 2,
    ensures
        spec_match_call(call, None, pattern, adf) == Some(
            (DecisionView {
                targets: seq![(TargetView {
                arg_index: 1,
                method_name: Some("register"@),
                rename_name_arg_index: Some(0),
                context_dependent: false,
                sub_targets: Seq::empty(),
            })],
                chain_kind: None,
            }),
        ),
{
    assert("register"@ != "provider"@ && "register"@ != "value"@ && "register"@ != "constant"@ && "register"@ != "bootstrap"@ && "register"@ != "config"@ && "register"@ != "factory"@ && "register"@ != "directive"@ && "register"@ != "filter"@ && "register"@ != "run"@ && "register"@ != "controller"@ && "register"@ != "service"@ && "register"@ != "animation"@ && "register"@ != "invoke"@ && "register"@ != "store"@ && "register"@ != "decorator"@ && "register"@ != "component"@ && "register"@ != "when"@ && "register"@ != "open"@ && "register"@ != "show"@ && "register"@ != "push"@) by {
        reveal_strlit("register");
        reveal_strlit("provider");
        reveal_strlit("value");
        reveal_strlit("constant");
        reveal_strlit("bootstrap");
        reveal_strlit("config");
        reveal_strlit("factory");
        reveal_strlit("directive");
        reveal_strlit("filter");
        reveal_strlit("run");
        reveal_strlit("controller");
        reveal_strlit("service");
        reveal_strlit("animation");
        reveal_strlit("invoke");
        reveal_strlit("store");
        reveal_strlit("decorator");
        reveal_strlit("component");
        reveal_strlit("when");
        reveal_strlit("open");
        reveal_strlit("show");
        reveal_strlit("push");
        assert("register"@[0] != "provider"@[0]);
        assert("register"@.len() != "value"@.len());
        assert("register"@[0] != "constant"@[0]);
        assert("register"@.len() != "bootstrap"@.len());
        assert("register"@.len() != "config"@.len());
        assert("register"@.len() != "factory"@.len());
        assert("register"@.len() != "directive"@.len());
        assert("register"@.len() != "filter"@.len());
        assert("register"@.len() != "run"@.len());
        assert("register"@.len() != "controller"@.len());
        assert("register"@.len() != "service"@.len());
        assert("register"@.len() != "animation"@.len());
        assert("register"@.len() != "invoke"@.len());
        assert("register"@.len() != "store"@.len());
        assert("register"@.len() != "decorator"@.len());
        assert("register"@.len() != "component"@.len());
        assert("register"@.len() != "when"@.len());
        assert("register"@.len() != "open"@.len());
        assert("register"@.len() != "show"@.len());
        assert("register"@.len() != "push"@.len());
    }
    assert("$controllerProvider"@ != "$provide"@ && "$controllerProvider"@ != "angular"@ && "$controllerProvider"@ != "$stateProvider"@ && "$controllerProvider"@ != "$routeProvider"@ && "$controllerProvider"@ != "$urlRouterProvider"@ && "$controllerProvider"@ != "stateHelperProvider"@) by {
        reveal_strlit("$controllerProvider");
        reveal_strlit("$provide");
        reveal_strlit("angular");
        reveal_strlit("$stateProvider");
        reveal_strlit("$routeProvider");
        reveal_strlit("$urlRouterProvider");
        reveal_strlit("stateHelperProvider");
        assert("$controllerProvider"@.len() != "$provide"@.len());
        assert("$controllerProvider"@.len() != "angular"@.len());
        assert("$controllerProvider"@.len() != "$stateProvider"@.len());
        assert("$controllerProvider"@.len() != "$routeProvider"@.len());
        assert("$controllerProvider"@.len() != "$urlRouterProvider"@.len());
        assert("$controllerProvider"@[0] != "stateHelperProvider"@[0]);
    }
}

/// `dashboardProvider.widget("name", { .. })` injects the controller,
/// resolve and edit functions of its widget object when the dashboard
/// matchers are enabled, and is not recognised otherwise.
pub proof fn law_dashboard_widget_target(
    call: CallExpr,
    obj: Expr,
    m: Seq<char>,
    args: Seq<Expr>,
    chain: Option<u8>,
    pattern: Seq<char>,
    adf: bool,
    o: ObjectLit,
)
    requires
        spec_method_call(call) == Some((obj, "widget"@, args)),
        is_ident_named(obj, "dashboardProvider"@),
        args.len() == 2,
        args[1] is Object,
    ensures
        spec_match_call(call, None, pattern, true) == Some(
            (DecisionView {
                targets: seq![(TargetView {
                arg_index: 1,
                method_name: Some("widget"@),
                rename_name_arg_index: Some(0),
                context_dependent: false,
                sub_targets: seq![
                    (SubTargetView { prop_path: seq!["controller"@], method_name: Some("widget"@) }),
                    (SubTargetView { prop_path: seq!["resolve"@], method_name: Some("widget"@) }),
                    (SubTargetView { prop_path: seq!["edit"@, "controller"@], method_name: Some("widget"@) }),
                    (SubTargetView { prop_path: seq!["edit"@, "apply"@], method_name: Some("widget"@) }),
                    (SubTargetView { prop_path: seq!["edit"@, "resolve"@], method_name: Some("widget"@) }),
                ],
            })],
                chain_kind: Some(CHAINED_ADF),
            }),
        ),
        spec_match_call(call, None, pattern, false) is None,
{
    assert("widget"@ != "provider"@ && "widget"@ != "value"@ && "widget"@ != "constant"@ && "widget"@ != "bootstrap"@ && "widget"@ != "config"@ && "widget"@ != "factory"@ && "widget"@ != "directive"@ && "widget"@ != "filter"@ && "widget"@ != "run"@ && "widget"@ != "controller"@ && "widget"@ != "service"@ && "widget"@ != "animation"@ && "widget"@ != "invoke"@ && "widget"@ != "store"@ && "widget"@ != "decorator"@ && "widget"@ != "component"@ && "widget"@ != "when"@ && "widget"@ != "open"@ && "widget"@ != "show"@ && "widget"@ != "push"@ && "widget"@ != "register"@) by {
        reveal_strlit("widget");
        reveal_strlit("provider");
        reveal_strlit("value");
        reveal_strlit("constant");
        reveal_strlit("bootstrap");
        reveal_strlit("config");
        reveal_strlit("factory");
        reveal_strlit("directive");
        reveal_strlit("filter");
        reveal_strlit("run");
        reveal_strlit("controller");
        reveal_strlit("service");
        reveal_strlit("animation");
        reveal_strlit("invoke");
        reveal_strlit("store");
        reveal_strlit("decorator");
        reveal_strlit("component");
        reveal_strlit("when");
        reveal_strlit("open");
        reveal_strlit("show");
        reveal_strlit("push");
        reveal_strlit("register");
        assert("widget"@.len() != "provider"@.len());
        assert("widget"@.len() != "value"@.len());
        assert("widget"@.len() != "constant"@.len());
        assert("widget"@.len() != "bootstrap"@.len());
        assert("widget"@[0] != "config"@[0]);
        assert("widget"@.len() != "factory"@.len());
        assert("widget"@.len() != "directive"@.len());
        assert("widget"@[0] != "filter"@[0]);
        assert("widget"@.len() != "run"@.len());
        assert("widget"@.len() != "controller"@.len());
        assert("widget"@.len() != "service"@.len());
        assert("widget"@.len() != "animation"@.len());
        assert("widget"@[0] != "invoke"@[0]);
        assert("widget"@.len() != "store"@.len());
        assert("widget"@.len() != "decorator"@.len());
        assert("widget"@.len() != "component"@.len());
        assert("widget"@.len() != "when"@.len());
        assert("widget"@.len() != "open"@.len());
        assert("widget"@.len() != "show"@.len());
        assert("widget"@.len() != "push"@.len());
        assert("widget"@.len() != "register"@.len());
    }
    assert("dashboardProvider"@ != "$provide"@ && "dashboardProvider"@ != "angular"@ && "dashboardProvider"@ != "$stateProvider"@ && "dashboardProvider"@ != "$routeProvider"@ && "dashboardProvider"@ != "$urlRouterProvider"@ && "dashboardProvider"@ != "stateHelperProvider"@) by {
        reveal_strlit("dashboardProvider");
        reveal_strlit("$provide");
        reveal_strlit("angular");
        reveal_strlit("$stateProvider");
        reveal_strlit("$routeProvider");
        reveal_strlit("$urlRouterProvider");
        reveal_strlit("stateHelperProvider");
        assert("dashboardProvider"@.len() != "$provide"@.len());
        assert("dashboardProvider"@.len() != "angular"@.len());
        assert("dashboardProvider"@.len() != "$stateProvider"@.len());
        assert("dashboardProvider"@.len() != "$routeProvider"@.len());
        assert("dashboardProvider"@.len() != "$urlRouterProvider"@.len());
        assert("dashboardProvider"@.len() != "stateHelperProvider"@.len());
    }
    assert(crate::matchers::adf_subs() =~= seq![
                    (SubTargetView { prop_path: seq!["controller"@], method_name: Some("widget"@) }),
                    (SubTargetView { prop_path: seq!["resolve"@], method_name: Some("widget"@) }),
                    (SubTargetView { prop_path: seq!["edit"@, "controller"@], method_name: Some("widget"@) }),
                    (SubTargetView { prop_path: seq!["edit"@, "apply"@], method_name: Some("widget"@) }),
                    (SubTargetView { prop_path: seq!["edit"@, "resolve"@], method_name: Some("widget"@) }),
                ]);
}

/// A ui-router state call records the suspects of its state object.
proof fn lemma_state_scan(c: ScanView, call: CallExpr, obj: Expr, args: Seq<Expr>, pattern: Seq<char>, adf: bool, o: ObjectLit)
    requires
        spec_method_call(call) == Some((obj, "state"@, args)),
        is_ident_named(obj, "$stateProvider"@),
        !c.chain_kinds.contains_key(obj.spec_lo()),
        1 <= args.len() <= 2,
        args.last() == Expr::Object(o),
    ensures
        spec_scan_call(c, call, pattern, adf) == add_all(
            spec_mark(c, call.lo, Some(CHAINED_STATE_PROVIDER)),
            subs_entries(o, state_subs()),
        ),
{
    lemma_state_names();
    assert(spec_callee_chain_kind(c, call) is None);
    assert(spec_match_injector_invoke(obj, "state"@, args) is None);
    assert(spec_match_provide(obj, "state"@, args) is None);
    assert(!is_regular_method("state"@));
    assert(spec_match_regular(obj, "state"@, args, None, pattern) is None);
    assert(spec_match_ng_route(obj, "state"@, args, None) is None);
    assert(spec_match_material_modal(obj, "state"@, args) is None);
    let idx: int = args.len() - 1;
    let t = crate::matchers::target(idx as usize, "state"@, None, state_subs());
    assert(args[idx] == Expr::Object(o));
    assert(spec_match_ng_ui(obj, "state"@, args, None) == crate::matchers::one(t, Some(CHAINED_STATE_PROVIDER)));
    assert(spec_match_call(call, None, pattern, adf) == crate::matchers::one(t, Some(CHAINED_STATE_PROVIDER)));
    let es = targets_entries(call, seq![t]);
    assert(seq![t].drop_last() =~= Seq::<TargetView>::empty());
    assert(seq![t].last() == t);
    assert(targets_entries(call, Seq::<TargetView>::empty()) == Seq::<SuspectView>::empty());
    assert(es == targets_entries(call, Seq::<TargetView>::empty()) + target_entries(call, t));
    assert(es =~= target_entries(call, t));
    assert(call.args@ == args);
}

/// The suspects of every sub-target are among those of all sub-targets.
proof fn lemma_subs_has(o: ObjectLit, subs: Seq<SubTargetView>, i: int, x: SuspectView)
    requires
        0 <= i < subs.len(),
        sub_entries(o, subs[i].prop_path, subs[i].method_name).contains(x),
    ensures
        subs_entries(o, subs).contains(x),
    decreases subs.len(),
{
    if i < subs.len() - 1 {
        assert(subs.drop_last()[i] == subs[i]);
        lemma_subs_has(o, subs.drop_last(), i, x);
    }
    lemma_concat_contains(
        subs_entries(o, subs.drop_last()),
        sub_entries(o, subs.last().prop_path, subs.last().method_name),
        x,
    );
}

/// The value of every key-value property is among the key-value values.
proof fn lemma_kv_values_has(ps: Seq<PropOrSpread>, k: int)
    requires
        0 <= k < ps.len(),
        ps[k] is KeyValue,
    ensures
        kv_values(ps).contains(*ps[k]->KeyValue_0.value),
    decreases ps.len(),
{
    let rest = kv_values(ps.drop_last());
    if k == ps.len() - 1 {
        assert(kv_values(ps)[rest.len() as int] == *ps[k]->KeyValue_0.value);
    } else {
        assert(ps.drop_last()[k] == ps[k]);
        lemma_kv_values_has(ps.drop_last(), k);
        let q = choose|q: int| 0 <= q < rest.len() && rest[q] == *ps[k]->KeyValue_0.value;
        assert(kv_values(ps)[q] == rest[q]);
    }
}

/// In `$stateProvider.state(.., { .. })` the values of the `controller`,
/// `controllerProvider`, `templateProvider`, `onEnter` and `onExit`
/// properties, and every value of the `resolve` object, are recorded as
/// suspects at their positions.
pub proof fn law_state_suspects(
    c: ScanView,
    call: CallExpr,
    obj: Expr,
    args: Seq<Expr>,
    pattern: Seq<char>,
    adf: bool,
    o: ObjectLit,
    name: Seq<char>,
    ro: ObjectLit,
    k: int,
)
    requires
        spec_method_call(call) == Some((obj, "state"@, args)),
        is_ident_named(obj, "$stateProvider"@),
        !c.chain_kinds.contains_key(obj.spec_lo()),
        1 <= args.len() <= 2,
        args.last() == Expr::Object(o),
    ensures
        (name == "controller"@ || name == "controllerProvider"@ || name == "templateProvider"@ || name == "onEnter"@
            || name == "onExit"@) && spec_prop_value(name, o.props@) is Some ==> has_suspect_at(
            spec_scan_call(c, call, pattern, adf),
            spec_prop_value(name, o.props@)->0.spec_lo(),
        ),
        spec_prop_value("resolve"@, o.props@) == Some(Expr::Object(ro)) && 0 <= k < ro.props@.len()
            && ro.props@[k] is KeyValue ==> has_suspect_at(
            spec_scan_call(c, call, pattern, adf),
            ro.props@[k]->KeyValue_0.value.spec_lo(),
        ),
{
    lemma_state_scan(c, call, obj, args, pattern, adf, o);
    let m: Option<Seq<char>> = Some("state"@);
    let c1 = spec_mark(c, call.lo, Some(CHAINED_STATE_PROVIDER));
    let subs = state_subs();
    assert("controller"@ != "resolve"@ && "controller"@ != "views"@ && "controllerProvider"@ != "resolve"@
        && "controllerProvider"@ != "views"@ && "templateProvider"@ != "resolve"@ && "templateProvider"@ != "views"@
        && "onEnter"@ != "resolve"@ && "onEnter"@ != "views"@ && "onExit"@ != "resolve"@ && "onExit"@ != "views"@) by {
        reveal_strlit("controller");
        reveal_strlit("controllerProvider");
        reveal_strlit("templateProvider");
        reveal_strlit("onEnter");
        reveal_strlit("onExit");
        reveal_strlit("resolve");
        reveal_strlit("views");
        assert("controller"@.len() != "resolve"@.len() && "controller"@.len() != "views"@.len());
        assert("controllerProvider"@.len() != "resolve"@.len() && "controllerProvider"@.len() != "views"@.len());
        assert("templateProvider"@.len() != "resolve"@.len() && "templateProvider"@.len() != "views"@.len());
        assert("onEnter"@[0] != "resolve"@[0] && "onEnter"@.len() != "views"@.len());
        assert("onExit"@.len() != "resolve"@.len() && "onExit"@[0] != "views"@[0]);
    }
    if (name == "controller"@ || name == "controllerProvider"@ || name == "templateProvider"@ || name == "onEnter"@
        || name == "onExit"@) && spec_prop_value(name, o.props@) is Some {
        let v = spec_prop_value(name, o.props@)->0;
        let x = entry(v.spec_lo(), m, false, ident_name(v), None, false);
        let i: int = if name == "controller"@ {
            0
        } else if name == "controllerProvider"@ {
            1
        } else if name == "templateProvider"@ {
            2
        } else if name == "onEnter"@ {
            3
        } else {
            4
        };
        assert(subs[i] == crate::matchers::sub_at(seq![name], "state"@));
        let p = seq![name];
        assert(p[0] == name && p.len() == 1);
        assert(sub_entries(o, p, m) == seq![x]);
        assert(sub_entries(o, p, m)[0] == x);
        lemma_subs_has(o, subs, i, x);
        lemma_add_all_has(c1, subs_entries(o, subs), x);
    }
    if spec_prop_value("resolve"@, o.props@) == Some(Expr::Object(ro)) && 0 <= k < ro.props@.len()
        && ro.props@[k] is KeyValue {
        let v = *ro.props@[k]->KeyValue_0.value;
        let x = entry(v.spec_lo(), m, false, ident_name(v), None, false);
        lemma_kv_values_has(ro.props@, k);
        let vals = kv_values(ro.props@);
        let q = choose|q: int| 0 <= q < vals.len() && vals[q] == v;
        let p = seq!["resolve"@];
        assert(subs[5] == crate::matchers::sub_at(p, "state"@));
        assert(p[0] == "resolve"@ && p.len() == 1);
        assert(sub_entries(o, p, m) == resolve_entries(o.props@, m));
        assert(resolve_entries(o.props@, m)[q] == x);
        assert(resolve_entries(o.props@, m).contains(x));
        lemma_subs_has(o, subs, 5, x);
        lemma_add_all_has(c1, subs_entries(o, subs), x);
    }
}

/// Adding or rebuilding wraps a suspect function with parameters into its
/// annotation array, as an argument of a chained call, as the value of a
/// property or as the right side of an assignment statement.
proof fn lemma_fn_edit(c: ScanView, mode: Mode, rename: Map<Seq<char>, Seq<char>>, f: FnExpr)
    requires
        mode != Mode::Remove,
        f.function.params@.len() > 0,
        param_names(f.function.params@).len() > 0,
        spec_is_suspect(c, f.function.lo),
    ensures
        arg_effect(c, mode, rename, Expr::Fn(f)) == ArgEffect::Edit(
            EditView::Wrap(spec_annotation_strings(param_names(f.function.params@), rename)),
        ),
{
}

/// The edits of a list of arguments hold the edit of each argument.
proof fn lemma_arg_edits_has(c: ScanView, mode: Mode, rename: Map<Seq<char>, Seq<char>>, args: Seq<Expr>, j: int, ed: EditView)
    requires
        0 <= j < args.len(),
        arg_effect(c, mode, rename, args[j]) == ArgEffect::Edit(ed),
    ensures
        arg_edits(c, mode, rename, args).contains((j, ed)),
    decreases args.len(),
{
    let prev = arg_edits(c, mode, rename, args.drop_last());
    if j == args.len() - 1 {
        assert(arg_edits(c, mode, rename, args) == prev.push((j, ed)));
        assert(arg_edits(c, mode, rename, args)[prev.len() as int] == (j, ed));
    } else {
        assert(args.drop_last()[j] == args[j]);
        lemma_arg_edits_has(c, mode, rename, args.drop_last(), j, ed);
        let q = choose|q: int| 0 <= q < prev.len() && prev[q] == (j, ed);
        assert(arg_edits(c, mode, rename, args)[q] == (j, ed));
    }
}

/// In add and rebuild modes, a suspect function with parameters gets
/// wrapped into `["p0", .., f]` (with renamed strings): as an argument of
/// a chained call, as a property value, and as the right side of an
/// assignment statement; a suspect method with parameters becomes a
/// key-value property with such an array. Removing never turns a method
/// into an annotated property.
pub proof fn law_suspect_functions_annotated(
    c: ScanView,
    mode: Mode,
    rename: Map<Seq<char>, Seq<char>>,
    args: Seq<Expr>,
    j: int,
    f: FnExpr,
    kv: KeyValueProp,
    mp: MethodProp,
    a: AssignExpr,
)
    requires
        f.function.params@.len() > 0,
        param_names(f.function.params@).len() > 0,
        spec_is_suspect(c, f.function.lo),
    ensures
        mode != Mode::Remove && 0 <= j < args.len() && args[j] == Expr::Fn(f) ==> arg_edits(c, mode, rename, args).contains(
            (j, EditView::Wrap(spec_annotation_strings(param_names(f.function.params@), rename))),
        ),
        mode != Mode::Remove && *kv.value == Expr::Fn(f) ==> spec_prop_edit(c, mode, rename, PropOrSpread::KeyValue(kv))
            == Some(PropEditView::Value(EditView::Wrap(spec_annotation_strings(param_names(f.function.params@), rename)))),
        mode != Mode::Remove && *a.right == Expr::Fn(f) ==> spec_expr_stmt_edit(c, mode, rename, Expr::Assign(a))
            == Some(EditView::Wrap(spec_annotation_strings(param_names(f.function.params@), rename))),
        mode != Mode::Remove && mp.function == f.function ==> spec_prop_edit(c, mode, rename, PropOrSpread::Method(mp))
            == Some(PropEditView::MethodToAnnotated(spec_annotation_strings(param_names(f.function.params@), rename))),
        mp.function == f.function ==> spec_prop_edit(c, Mode::Remove, rename, PropOrSpread::Method(mp)) is None,
{
    if mode != Mode::Remove {
        lemma_fn_edit(c, mode, rename, f);
        if 0 <= j < args.len() && args[j] == Expr::Fn(f) {
            lemma_arg_edits_has(c, mode, rename, args, j,
                EditView::Wrap(spec_annotation_strings(param_names(f.function.params@), rename)));
        }
    }
}

/// `d` records at least what `c` records: its suspects' positions, its
/// explicit requests and its blocked positions.
pub open spec fn records_more(c: ScanView, d: ScanView) -> bool {
    &&& forall|lo: u32| has_suspect_at(c, lo) ==> #[trigger] has_suspect_at(d, lo)
    &&& forall|lo: u32| c.explicit.contains(lo) ==> #[trigger] d.explicit.contains(lo)
    &&& forall|lo: u32| c.blocked.contains(lo) ==> #[trigger] d.blocked.contains(lo)
}

proof fn lemma_seq_insert_has(s: Seq<u32>, x: u32)
    ensures
        seq_insert(s, x).contains(x),
        forall|y: u32| s.contains(y) ==> #[trigger] seq_insert(s, x).contains(y),
{
    if !s.contains(x) {
        assert(s.push(x)[s.len() as int] == x);
        assert forall|y: u32| s.contains(y) implies #[trigger] seq_insert(s, x).contains(y) by {
            let q = choose|q: int| 0 <= q < s.len() && s[q] == y;
            assert(s.push(x)[q] == y);
        }
    }
}

proof fn lemma_add_suspect_more(c: ScanView, e: SuspectView)
    ensures
        records_more(c, spec_add_suspect(c, e)),
        has_suspect_at(spec_add_suspect(c, e), e.target_lo),
{
    let d = spec_add_suspect(c, e);
    if !has_suspect_at(c, e.target_lo) {
        assert(d.suspects[c.suspects.len() as int].target_lo == e.target_lo);
        assert forall|lo: u32| has_suspect_at(c, lo) implies #[trigger] has_suspect_at(d, lo) by {
            let w = choose|w: int| 0 <= w < c.suspects.len() && #[trigger] c.suspects[w].target_lo == lo;
            assert(d.suspects[w].target_lo == lo);
        }
    }
}

proof fn lemma_explicit_more(c: ScanView, lo: u32)
    ensures
        records_more(c, spec_handle_explicit(c, lo, false)),
        spec_handle_explicit(c, lo, false).explicit.contains(lo),
        has_suspect_at(spec_handle_explicit(c, lo, false), lo),
{
    lemma_seq_insert_has(c.explicit, lo);
    let c0 = ScanView { explicit: seq_insert(c.explicit, lo), ..c };
    lemma_add_suspect_more(c0, entry(lo, None, false, None, None, true));
}

proof fn lemma_prop_request_more(c: ScanView, p: PropOrSpread)
    ensures
        records_more(c, prop_request_step(c, p)),
{
    match p {
        PropOrSpread::Method(m) => if spec_comments_result(m.key_comments@) == NgInjectResult::Inject {
            let c1 = spec_handle_explicit(c, m.function.lo, false);
            lemma_explicit_more(c, m.function.lo);
            lemma_add_suspect_more(c1, entry(m.function.lo, None, false, None, None, true));
        },
        PropOrSpread::KeyValue(kv) => if spec_comments_result(kv.key_comments@) == NgInjectResult::Inject {
            let c1 = spec_handle_explicit(c, kv.value.spec_lo(), false);
            lemma_explicit_more(c, kv.value.spec_lo());
            lemma_add_suspect_more(c1, entry(kv.value.spec_lo(), None, false, ident_name(*kv.value), None, true));
        },
        PropOrSpread::Other => {},
    }
}

/// What the requests of properties record, and that they keep what was
/// recorded.
proof fn lemma_props_requests(c: ScanView, ps: Seq<PropOrSpread>, k: int)
    ensures
        records_more(c, props_requests(c, ps)),
        0 <= k < ps.len() ==> records_more(prop_request_step(props_requests(c, ps.take(k)), ps[k]), props_requests(c, ps)),
    decreases ps.len(),
{
    if ps.len() > 0 {
        lemma_props_requests(c, ps.drop_last(), k);
        lemma_prop_request_more(props_requests(c, ps.drop_last()), ps.last());
        if 0 <= k < ps.len() - 1 {
            assert(ps.drop_last().take(k) =~= ps.take(k));
            assert(ps.drop_last()[k] == ps[k]);
        } else if k == ps.len() - 1 {
            assert(ps.take(k) =~= ps.drop_last());
        }
    }
}

/// An object literal makes its `$get` function a suspect; a method or a
/// key-value property whose key is led by an `@ngInject` comment makes its
/// function (or value) an explicit request and a suspect.
pub proof fn law_object_lit_scan(c: ScanView, o: ObjectLit, k: int)
    ensures
        spec_prop_value("$get"@, o.props@) is Some ==> has_suspect_at(
            spec_scan_object_lit(c, o),
            spec_prop_value("$get"@, o.props@)->0.spec_lo(),
        ),
        0 <= k < o.props@.len() && o.props@[k] is Method && o.props@[k]->Method_0.key_comments@.len() > 0
            && seq_contains(o.props@[k]->Method_0.key_comments@[0]@, "@ngInject"@)
            && !seq_contains(o.props@[k]->Method_0.key_comments@[0]@, "@ngNoInject"@)
            ==> spec_scan_object_lit(c, o).explicit.contains(o.props@[k]->Method_0.function.lo) && has_suspect_at(
            spec_scan_object_lit(c, o),
            o.props@[k]->Method_0.function.lo,
        ),
        0 <= k < o.props@.len() && o.props@[k] is KeyValue && o.props@[k]->KeyValue_0.key_comments@.len() > 0
            && seq_contains(o.props@[k]->KeyValue_0.key_comments@[0]@, "@ngInject"@)
            && !seq_contains(o.props@[k]->KeyValue_0.key_comments@[0]@, "@ngNoInject"@)
            ==> spec_scan_object_lit(c, o).explicit.contains(o.props@[k]->KeyValue_0.value.spec_lo()) && has_suspect_at(
            spec_scan_object_lit(c, o),
            o.props@[k]->KeyValue_0.value.spec_lo(),
        ),
{
    let c1 = match spec_prop_value("$get"@, o.props@) {
        Some(g) => spec_add_suspect(c, entry(g.spec_lo(), Some("provider"@), true, ident_name(g), None, false)),
        None => c,
    };
    if spec_prop_value("$get"@, o.props@) is Some {
        let g = spec_prop_value("$get"@, o.props@)->0;
        lemma_add_suspect_more(c, entry(g.spec_lo(), Some("provider"@), true, ident_name(g), None, false));
    }
    lemma_props_requests(c1, o.props@, k);
    if 0 <= k < o.props@.len() {
        let before = props_requests(c1, o.props@.take(k));
        match o.props@[k] {
            PropOrSpread::Method(m) => if spec_comments_result(m.key_comments@) == NgInjectResult::Inject {
                let cm = spec_handle_explicit(before, m.function.lo, false);
                lemma_explicit_more(before, m.function.lo);
                lemma_add_suspect_more(cm, entry(m.function.lo, None, false, None, None, true));
            },
            PropOrSpread::KeyValue(kv) => if spec_comments_result(kv.key_comments@) == NgInjectResult::Inject {
                let cm = spec_handle_explicit(before, kv.value.spec_lo(), false);
                lemma_explicit_more(before, kv.value.spec_lo());
                lemma_add_suspect_more(cm, entry(kv.value.spec_lo(), None, false, ident_name(*kv.value), None, true));
            },
            PropOrSpread::Other => {},
        }
    }
}

/// A `return { controller: f, .. }` (as in a directive definition) makes
/// `f` a suspect; so does `this.$get = f` (or `self.$get`, `that.$get`).
pub proof fn law_return_and_get_scan(c: ScanView, o: ObjectLit, a: AssignExpr, mem: MemberExpr)
    ensures
        spec_prop_value("controller"@, o.props@) is Some ==> has_suspect_at(
            spec_scan_return(c, Some(Expr::Object(o))),
            spec_prop_value("controller"@, o.props@)->0.spec_lo(),
        ),
        a.left == AssignTarget::Member(mem) && mem.prop is Ident && mem.prop->Ident_0@ == "$get"@
            && (*mem.obj is This || is_ident_named(*mem.obj, "self"@) || is_ident_named(*mem.obj, "that"@)) ==> has_suspect_at(
            spec_scan_expr_stmt(c, Expr::Assign(a)),
            a.right.spec_lo(),
        ),
{
    if spec_prop_value("controller"@, o.props@) is Some {
        let v = spec_prop_value("controller"@, o.props@)->0;
        lemma_add_suspect_more(c, entry(v.spec_lo(), Some("directive"@), true, ident_name(v), None, false));
    }
    lemma_add_suspect_more(c, entry(a.right.spec_lo(), Some("provider"@), true, ident_name(*a.right), None, false));
}

/// A class declaration whose first constructor starts with `"ngInject"`,
/// or (without a constructor request) whose leading comments ask for it,
/// is an explicit request at the class; it is recorded under its name with
/// its constructor's parameters.
pub proof fn law_class_decl_scan(c: ScanView, d: ClassDecl, stmt_lo: u32, stmt_comments: Seq<String>, ng_inject: String)
    ensures
        spec_scan_class_decl(c, d, stmt_lo, stmt_comments).decl_map.contains_key(d.ident.name@),
        spec_scan_class_decl(c, d, stmt_lo, stmt_comments).decl_map[d.ident.name@].params == ctor_params_of(d.class.members@),
        d.class.members@.len() > 0 && d.class.members@[0] is Constructor
            && d.class.members@[0]->Constructor_0.body is Some
            && d.class.members@[0]->Constructor_0.body->0@.len() > 0
            && d.class.members@[0]->Constructor_0.body->0@[0] == BodyStmt::Str(Some(ng_inject))
            && ng_inject@ == "ngInject"@
            ==> spec_scan_class_decl(c, d, stmt_lo, stmt_comments).explicit.contains(d.class.lo),
        class_directive_of(d.class.members@) == NgInjectResult::NoDirective && d.class.comments@.len() > 0
            && seq_contains(d.class.comments@[0]@, "@ngInject"@) && !seq_contains(d.class.comments@[0]@, "@ngNoInject"@)
            ==> spec_scan_class_decl(c, d, stmt_lo, stmt_comments).explicit.contains(d.class.lo),
{
    let c1 = spec_insert_decl(c, DeclView {
        params: ctor_params_of(d.class.members@),
        stmt_lo,
        name: d.ident.name@,
        decl_kind: DeclKind::FnDecl,
    });
    lemma_explicit_more(c1, d.class.lo);
    if d.class.members@.len() > 0 {
        if let ClassMember::Constructor(k) = d.class.members@[0] {
            if let Some(b) = k.body {
                if b@.len() > 0 {
                    lemma_first_directive(b@);
                }
            }
        }
    }
}

/// An index that one operation removes is removed by the operations.
proof fn lemma_ops_plan_removes_index(stmts: Seq<Stmt>, i: int, ops: Seq<OpView>, rename: Map<Seq<char>, Seq<char>>, op: OpView, j: int)
    requires
        ops.contains(op),
        op_plan(stmts, i, op, rename).0.contains(j),
    ensures
        ops_plan(stmts, i, ops, rename).0.contains(j),
    decreases ops.len(),
{
    let prev = ops_plan(stmts, i, ops.drop_last(), rename);
    let last = op_plan(stmts, i, ops.last(), rename);
    if ops.last() == op {
        let q = choose|q: int| 0 <= q < last.0.len() && last.0[q] == j;
        assert((prev.0 + last.0)[prev.0.len() + q] == j);
    } else {
        let w = choose|w: int| 0 <= w < ops.len() && ops[w] == op;
        assert(w < ops.len() - 1);
        assert(ops.drop_last()[w] == op);
        lemma_ops_plan_removes_index(stmts, i, ops.drop_last(), rename, op, j);
        let q = choose|q: int| 0 <= q < prev.0.len() && prev.0[q] == j;
        assert((prev.0 + last.0)[q] == j);
    }
}

/// Every statement that a plan inserts is an `Insert` place.
proof fn lemma_plan_inserts_are_new(stmts: Seq<Stmt>, pending: Seq<OpView>, rename: Map<Seq<char>, Seq<char>>, k: int)
    ensures
        forall|q: int| 0 <= q < plan_upto(stmts, pending, rename, k).1.len() ==> #[trigger] plan_upto(stmts, pending, rename, k).1[q].1 is Insert,
    decreases k,
{
    if k > 0 {
        lemma_plan_inserts_are_new(stmts, pending, rename, k - 1);
        let ops = ops_at(pending, stmts[k - 1].lo);
        lemma_ops_inserts_are_new(stmts, k - 1, ops, rename);
        let prev = plan_upto(stmts, pending, rename, k - 1);
        let here = ops_plan(stmts, k - 1, ops, rename);
        assert forall|q: int| 0 <= q < (prev.1 + here.1).len() implies #[trigger] (prev.1 + here.1)[q].1 is Insert by {
            if q >= prev.1.len() {
                assert(here.1[q - prev.1.len()].1 is Insert);
            }
        }
    }
}

proof fn lemma_ops_inserts_are_new(stmts: Seq<Stmt>, i: int, ops: Seq<OpView>, rename: Map<Seq<char>, Seq<char>>)
    ensures
        forall|q: int| 0 <= q < ops_plan(stmts, i, ops, rename).1.len() ==> #[trigger] ops_plan(stmts, i, ops, rename).1[q].1 is Insert,
    decreases ops.len(),
{
    if ops.len() > 0 {
        lemma_ops_inserts_are_new(stmts, i, ops.drop_last(), rename);
        let prev = ops_plan(stmts, i, ops.drop_last(), rename);
        let last = op_plan(stmts, i, ops.last(), rename);
        assert forall|q: int| 0 <= q < (prev.1 + last.1).len() implies #[trigger] (prev.1 + last.1)[q].1 is Insert by {
            if q >= prev.1.len() {
                assert(last.1[q - prev.1.len()].1 is Insert);
            }
        }
    }
}

/// What a sorted insertion holds comes from the list or is the new item.
proof fn lemma_sorted_insert_from(s: Seq<(int, SlotView)>, x: (int, SlotView))
    ensures
        forall|y: (int, SlotView)| #[trigger] sorted_insert(s, x).contains(y) ==> y == x || s.contains(y),
    decreases s.len(),
{
    if s.len() == 0 {
        assert forall|y: (int, SlotView)| #[trigger] sorted_insert(s, x).contains(y) implies y == x || s.contains(y) by {
            let q = choose|q: int| 0 <= q < sorted_insert(s, x).len() && sorted_insert(s, x)[q] == y;
        }
    } else if s.last().0 <= x.0 {
        assert forall|y: (int, SlotView)| #[trigger] sorted_insert(s, x).contains(y) implies y == x || s.contains(y) by {
            let q = choose|q: int| 0 <= q < sorted_insert(s, x).len() && sorted_insert(s, x)[q] == y;
            if q < s.len() {
                assert(s[q] == y);
            }
        }
    } else {
        lemma_sorted_insert_from(s.drop_last(), x);
        let r = sorted_insert(s.drop_last(), x);
        assert forall|y: (int, SlotView)| #[trigger] sorted_insert(s, x).contains(y) implies y == x || s.contains(y) by {
            let q = choose|q: int| 0 <= q < sorted_insert(s, x).len() && sorted_insert(s, x)[q] == y;
            if q < r.len() {
                assert(r[q] == y);
                assert(r.contains(y));
                if y != x {
                    let w = choose|w: int| 0 <= w < s.drop_last().len() && s.drop_last()[w] == y;
                    assert(s[w] == y);
                }
            } else {
                assert(y == s.last());
                assert(s[s.len() - 1] == y);
            }
        }
    }
}

/// What a stable sort holds comes from the list.
proof fn lemma_stable_sort_from(s: Seq<(int, SlotView)>)
    ensures
        forall|y: (int, SlotView)| #[trigger] stable_sort(s).contains(y) ==> s.contains(y),
    decreases s.len(),
{
    if s.len() > 0 {
        lemma_stable_sort_from(s.drop_last());
        lemma_sorted_insert_from(stable_sort(s.drop_last()), s.last());
        assert forall|y: (int, SlotView)| #[trigger] stable_sort(s).contains(y) implies s.contains(y) by {
            if y == s.last() {
                assert(s[s.len() - 1] == y);
            } else {
                assert(stable_sort(s.drop_last()).contains(y));
                let w = choose|w: int| 0 <= w < s.drop_last().len() && s.drop_last()[w] == y;
                assert(s[w] == y);
            }
        }
    }
}

/// What the insertions give holds the base and the inserted places only.
proof fn lemma_apply_inserts_from(base: Seq<SlotView>, ins: Seq<(int, SlotView)>)
    ensures
        forall|v: SlotView| #[trigger] apply_inserts(base, ins).contains(v) ==> base.contains(v)
            || exists|q: int| 0 <= q < ins.len() && ins[q].1 == v,
    decreases ins.len(),
{
    if ins.len() > 0 {
        let x = ins.last();
        let pos = if x.0 < 0 { 0 } else if x.0 < base.len() { x.0 } else { base.len() as int };
        let nb = base.insert(pos, x.1);
        lemma_apply_inserts_from(nb, ins.drop_last());
        assert forall|v: SlotView| #[trigger] apply_inserts(base, ins).contains(v) implies base.contains(v)
            || exists|q: int| 0 <= q < ins.len() && ins[q].1 == v by {
            assert(apply_inserts(base, ins) == apply_inserts(nb, ins.drop_last()));
            if nb.contains(v) {
                let w = choose|w: int| 0 <= w < nb.len() && nb[w] == v;
                if w < pos {
                    assert(base[w] == v);
                } else if w == pos {
                    assert(ins[ins.len() - 1].1 == v);
                } else {
                    assert(base[w - 1] == v);
                }
            } else {
                let q = choose|q: int| 0 <= q < ins.drop_last().len() && ins.drop_last()[q].1 == v;
                assert(ins[q].1 == v);
            }
        }
    }
}

/// Rebuilding gives every declaration of a list its fresh
/// `name.$inject = [...]` statement; where the list already held a
/// `$inject` statement for the name, the first one is gone (replaced).
pub proof fn law_rebuild_replaces(
    stmts: Seq<Stmt>,
    pending: Seq<OpView>,
    rename: Map<Seq<char>, Seq<char>>,
    p: int,
    i: int,
)
    requires
        0 <= p < pending.len(),
        pending[p].op == InjectOpKind::Rebuild,
        0 <= i < stmts.len(),
        stmts[i].lo == pending[p].stmt_lo,
    ensures
        spec_layout(stmts, pending, rename).contains(
            SlotView::Insert(pending[p].name, pending[p].ident_lo, spec_annotation_strings(pending[p].params, rename)),
        ),
        inject_indices(stmts, pending[p].name).len() > 0 ==> !spec_layout(stmts, pending, rename).contains(
            SlotView::Keep(inject_indices(stmts, pending[p].name)[0]),
        ),
{
    let n = stmts.len() as int;
    let plan = plan_upto(stmts, pending, rename, n);
    let op = pending[p];
    let js = inject_indices(stmts, op.name);
    let slot = crate::visitor::op_slot(op, rename);
    let x = if js.len() > 0 { (js[0], slot) } else { (i + 1, slot) };
    assert(op_plan(stmts, i, op, rename).1[0] == x);
    assert(op_plan(stmts, i, op, rename).1.contains(x));
    lemma_ops_at_contains(pending, stmts[i].lo, p);
    lemma_ops_plan_inserts(stmts, i, ops_at(pending, stmts[i].lo), rename, x);
    lemma_plan_upto_inserts(stmts, pending, rename, n, i, x);
    lemma_stable_sort_keeps(plan.1);
    assert(stable_sort(plan.1).contains(x));
    lemma_apply_inserts_keeps(kept_slots(n, plan.0), stable_sort(plan.1));
    assert(spec_layout(stmts, pending, rename) == apply_inserts(kept_slots(n, plan.0), stable_sort(plan.1)));
    assert(apply_inserts(kept_slots(n, plan.0), stable_sort(plan.1)).contains(x.1));
    if js.len() > 0 {
        let j0 = js[0];
        assert(op_plan(stmts, i, op, rename).0[0] == j0);
        assert(op_plan(stmts, i, op, rename).0.contains(j0));
        lemma_ops_plan_removes_index(stmts, i, ops_at(pending, stmts[i].lo), rename, op, j0);
        lemma_plan_upto_keeps(stmts, pending, rename, n, i, j0);
        lemma_kept_slots(n, plan.0);
        lemma_plan_inserts_are_new(stmts, pending, rename, n);
        lemma_stable_sort_from(plan.1);
        lemma_apply_inserts_from(kept_slots(n, plan.0), stable_sort(plan.1));
        let ss = stable_sort(plan.1);
        if spec_layout(stmts, pending, rename).contains(SlotView::Keep(j0)) {
            if kept_slots(n, plan.0).contains(SlotView::Keep(j0)) {
                let w = choose|w: int| 0 <= w < kept_slots(n, plan.0).len() && kept_slots(n, plan.0)[w] == SlotView::Keep(j0);
                assert(false);
            } else {
                let q = choose|q: int| 0 <= q < ss.len() && ss[q].1 == SlotView::Keep(j0);
                assert(ss.contains(ss[q]));
                assert(plan.1.contains(ss[q]));
                let w = choose|w: int| 0 <= w < plan.1.len() && plan.1[w] == ss[q];
                assert(plan.1[w].1 is Insert);
                assert(false);
            }
        }
    }
}

/// Some pending operation is for `name` at the statement at `lo`.
pub open spec fn has_op(pending: Seq<OpView>, name: Seq<char>, lo: u32) -> bool {
    exists|q: int| 0 <= q < pending.len() && #[trigger] pending[q].name == name && pending[q].stmt_lo == lo
}

/// Scheduling keeps every pending operation and leaves one for the name
/// and statement; a new one has the mode's kind and the given parameters.
proof fn lemma_schedule_has(
    pending: Seq<OpView>,
    mode: Mode,
    name: Seq<char>,
    ident_lo: Option<u32>,
    params: Seq<Seq<char>>,
    lo: u32,
)
    ensures
        has_op(spec_schedule(pending, mode, name, ident_lo, params, lo), name, lo),
        forall|n: Seq<char>, l: u32| has_op(pending, n, l) ==> #[trigger] has_op(spec_schedule(pending, mode, name, ident_lo, params, lo), n, l),
        !has_op(pending, name, lo) ==> spec_schedule(pending, mode, name, ident_lo, params, lo).last() == (OpView {
            stmt_lo: lo,
            name,
            ident_lo,
            params,
            op: crate::visitor::op_of(mode),
        }),
{
    let r = spec_schedule(pending, mode, name, ident_lo, params, lo);
    if !has_op(pending, name, lo) {
        assert(r[pending.len() as int].name == name && r[pending.len() as int].stmt_lo == lo);
        assert forall|n: Seq<char>, l: u32| has_op(pending, n, l) implies #[trigger] has_op(r, n, l) by {
            let q = choose|q: int| 0 <= q < pending.len() && #[trigger] pending[q].name == n && pending[q].stmt_lo == l;
            assert(r[q] == pending[q]);
        }
    }
}

/// A function declaration with an `ngInject` request and parameters
/// leaves a pending operation for its name at its declaring statement; a
/// new one carries the mode's kind, the identifier's position and the
/// parameters.
pub proof fn law_fn_decl_schedules(pending: Seq<OpView>, c: ScanView, mode: Mode, d: FnDecl)
    requires
        c.explicit.contains(d.function.lo),
        param_names(d.function.params@).len() > 0,
        c.decl_map.contains_key(d.ident.name@),
    ensures
        has_op(spec_fn_decl_sched(pending, c, mode, d), d.ident.name@, c.decl_map[d.ident.name@].stmt_lo),
        !has_op(pending, d.ident.name@, c.decl_map[d.ident.name@].stmt_lo) ==> spec_fn_decl_sched(pending, c, mode, d).last()
            == (OpView {
            stmt_lo: c.decl_map[d.ident.name@].stmt_lo,
            name: d.ident.name@,
            ident_lo: Some(d.ident.lo),
            params: param_names(d.function.params@),
            op: crate::visitor::op_of(mode),
        }),
{
    lemma_schedule_has(pending, mode, d.ident.name@, Some(d.ident.lo), param_names(d.function.params@), c.decl_map[d.ident.name@].stmt_lo);
}

/// A variable whose declarator or function carries an `ngInject` request
/// and whose function has parameters leaves a pending operation for its
/// name at its declaring statement.
pub proof fn law_var_decl_schedules(pending: Seq<OpView>, c: ScanView, mode: Mode, d: VarDeclarator, f: FnExpr)
    requires
        d.name is Some,
        d.init == Some(Box::new(Expr::Fn(f))),
        c.explicit.contains(d.lo) || c.explicit.contains(f.function.lo),
        param_names(f.function.params@).len() > 0,
        c.decl_map.contains_key(d.name->0.name@),
    ensures
        has_op(spec_var_decl_sched(pending, c, mode, d), d.name->0.name@, c.decl_map[d.name->0.name@].stmt_lo),
{
    lemma_schedule_has(pending, mode, d.name->0.name@, Some(d.name->0.lo), param_names(f.function.params@), c.decl_map[d.name->0.name@].stmt_lo);
}

/// An identifier argument of a chained call that is a suspect and names a
/// declaration with parameters leaves a pending operation for that
/// declaration at its statement (the reference is followed).
pub proof fn law_reference_schedules(
    pending: Seq<OpView>,
    c: ScanView,
    mode: Mode,
    rename: Map<Seq<char>, Seq<char>>,
    args: Seq<Expr>,
    j: int,
    id: Ident,
)
    requires
        0 <= j < args.len(),
        args[j] == Expr::Ident(id),
        spec_is_suspect(c, id.lo),
        c.decl_map.contains_key(id.name@),
        c.decl_map[id.name@].params.len() > 0,
    ensures
        has_op(sched_args(pending, c, mode, rename, args), id.name@, c.decl_map[id.name@].stmt_lo),
    decreases args.len(),
{
    let p = sched_args(pending, c, mode, rename, args.drop_last());
    if j == args.len() - 1 {
        lemma_schedule_has(p, mode, id.name@, Some(id.lo), c.decl_map[id.name@].params, c.decl_map[id.name@].stmt_lo);
    } else {
        assert(args.drop_last()[j] == args[j]);
        law_reference_schedules(pending, c, mode, rename, args.drop_last(), j, id);
        match arg_effect(c, mode, rename, args.last()) {
            ArgEffect::Schedule(name, ident_lo, params, stmt_lo) => {
                lemma_schedule_has(p, mode, name, Some(ident_lo), params, stmt_lo);
            },
            _ => {},
        }
    }
}

} // verus!

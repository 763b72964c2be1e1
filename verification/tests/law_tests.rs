use swc_plugin_ng_annotate::ast::{
    ArrayLit, AssignExpr, AssignTarget, BodyStmt, CallExpr, Callee, Class, ClassMember, Constructor, Expr, FnDecl, FnExpr,
    Function, Ident, KeyValueProp, MemberExpr, MemberProp, ObjectLit, PropName, PropOrSpread, Stmt, StmtKind, StrLit,
};
use swc_plugin_ng_annotate::config::RenameMap;
use swc_plugin_ng_annotate::matchers::{match_call, CHAINED_REGULAR};
use swc_plugin_ng_annotate::nginject::{check_ng_inject_comment_at, NgInjectResult};
use swc_plugin_ng_annotate::regexp::build_regexp;
use swc_plugin_ng_annotate::scan::Scanner;
use swc_plugin_ng_annotate::transforms::{apply_edit, build_annotation_strings, ExprEdit};
use swc_plugin_ng_annotate::visitor::Slot;
use swc_plugin_ng_annotate::{NgAnnotateVisitor, PluginConfig, RenameEntry};

fn ident(name: &str, lo: u32) -> Expr {
    Expr::Ident(Ident { name: name.to_string(), lo })
}

fn string(value: &str, lo: u32) -> Expr {
    Expr::Str(StrLit { value: Some(value.to_string()), lossy: value.to_string(), lo })
}

fn function(params: &[&str], body: Vec<BodyStmt>, lo: u32) -> Function {
    Function { params: params.iter().map(|p| Some(p.to_string())).collect(), body: Some(body), lo, comments: vec![] }
}

fn func(params: &[&str], lo: u32) -> Expr {
    Expr::Fn(FnExpr { ident: None, function: function(params, vec![], lo) })
}

fn method_call(obj: Expr, method: &str, args: Vec<Expr>, lo: u32) -> CallExpr {
    let callee = Expr::Member(MemberExpr { obj: Box::new(obj), prop: MemberProp::Ident(method.to_string()), lo });
    CallExpr { callee: Callee::Expr(Box::new(callee)), args, lo }
}

fn strs(v: &[&str]) -> Vec<String> {
    v.iter().map(|s| s.to_string()).collect()
}

fn visitor(add: bool, remove: bool) -> NgAnnotateVisitor {
    NgAnnotateVisitor::new(PluginConfig { add, remove, ..Default::default() }).expect("a pattern compiles")
}

fn started(add: bool, remove: bool) -> NgAnnotateVisitor {
    let mut v = visitor(add, remove);
    let ctx = Scanner::new(v.regexp(), v.enable_adf()).into_context();
    v.start(ctx);
    v
}

fn inject_assignment(name: &str, lo: u32) -> Stmt {
    Stmt {
        kind: StmtKind::Expr(Expr::Assign(AssignExpr {
            is_plain: true,
            left: AssignTarget::Member(MemberExpr {
                obj: Box::new(ident(name, lo)),
                prop: MemberProp::Ident("$inject".to_string()),
                lo,
            }),
            right: Box::new(Expr::Array(ArrayLit { elems: vec![], lo: lo + 19 })),
            lo,
        })),
        lo,
    }
}

fn slot_summary(slots: &[Slot]) -> Vec<String> {
    slots
        .iter()
        .map(|s| match s {
            Slot::Keep(j) => format!("keep {}", j),
            Slot::Insert(i) => format!("insert {} {}", i.name, i.strings.join(",")),
        })
        .collect()
}

#[test]
fn annotation_without_renames_lists_parameters() {
    let params = strs(&["$scope", "$http", "myService"]);
    assert_eq!(build_annotation_strings(&params, &RenameMap::empty()), params);
}

#[test]
fn annotation_has_one_renamed_string_per_parameter() {
    let mut c = PluginConfig { add: true, ..Default::default() };
    c.rename = Some(vec![RenameEntry { from: "$http".to_string(), to: "$h".to_string() }]);
    let m = c.rename_map();
    let out = build_annotation_strings(&strs(&["$scope", "$http", "$http"]), &m);
    assert_eq!(out, strs(&["$scope", "$h", "$h"]));
}

#[test]
fn remove_undoes_add() {
    let add = started(true, false);
    let remove = started(false, true);
    let f = func(&["$scope", "$q"], 31);
    let params = strs(&["$scope", "$q"]);
    let wrap = add.transform_expr(&f, &params).expect("adding wraps");
    let wrapped = apply_edit(func(&["$scope", "$q"], 31), &wrap).expect("applies");
    let unwrap = remove.transform_expr(&wrapped, &params).expect("removing unwraps");
    assert!(matches!(unwrap, ExprEdit::Unwrap));
    match apply_edit(wrapped, &unwrap) {
        Some(Expr::Fn(back)) => {
            assert_eq!(back.function.lo, 31);
            assert_eq!(back.function.params, vec![Some("$scope".to_string()), Some("$q".to_string())]);
        },
        _ => panic!("the function expected back"),
    }
}

#[test]
fn add_is_idempotent() {
    let add = started(true, false);
    let params = strs(&["$scope"]);
    let wrap = add.transform_expr(&func(&["$scope"], 3), &params).expect("adding wraps");
    let wrapped = apply_edit(func(&["$scope"], 3), &wrap).expect("applies");
    assert!(add.transform_expr(&wrapped, &params).is_none());
}

#[test]
fn rebuild_restrings_or_adds() {
    let rebuild = started(true, true);
    let params = strs(&["$a"]);
    let annotated = Expr::Array(ArrayLit { elems: vec![Some(string("$old", 1)), Some(func(&["$a"], 8))], lo: 0 });
    assert!(matches!(rebuild.transform_expr(&annotated, &params), Some(ExprEdit::Restring(s)) if s == params));
    assert!(matches!(rebuild.transform_expr(&func(&["$a"], 8), &params), Some(ExprEdit::Wrap(s)) if s == params));
    assert!(rebuild.transform_expr(&func(&[], 8), &params).is_none());
    assert!(rebuild.transform_expr(&ident("x", 0), &params).is_none());
}

#[test]
fn modes_keep_their_direction() {
    let add = started(true, false);
    let remove = started(false, true);
    let params = strs(&["$a"]);
    let annotated = Expr::Array(ArrayLit { elems: vec![Some(string("$a", 1)), Some(func(&["$a"], 8))], lo: 0 });
    assert!(remove.transform_expr(&func(&["$a"], 8), &params).is_none());
    assert!(matches!(remove.transform_expr(&annotated, &params), Some(ExprEdit::Unwrap)));
    assert!(add.transform_expr(&annotated, &params).is_none());
    assert!(matches!(add.transform_expr(&func(&["$a"], 8), &params), Some(ExprEdit::Wrap(_))));
}

#[test]
fn blocked_expressions_are_untouched() {
    // var o = { /* @ngNoInject */ k: function($a) {} } with the value also a
    // chain target would still be left alone.
    let mut v = visitor(true, false);
    let blocked_fn = Expr::Fn(FnExpr {
        ident: None,
        function: Function {
            params: vec![Some("$a".to_string())],
            body: Some(vec![BodyStmt::Str(Some("ngNoInject".to_string()))]),
            lo: 20,
            comments: vec![],
        },
    });
    let assign = Expr::Assign(AssignExpr {
        is_plain: true,
        left: AssignTarget::Member(MemberExpr { obj: Box::new(Expr::This(0)), prop: MemberProp::Ident("$get".to_string()), lo: 0 }),
        right: Box::new(blocked_fn),
        lo: 0,
    });
    let mut scanner = Scanner::new(v.regexp(), v.enable_adf());
    scanner.scan_expr_stmt(&assign);
    if let Expr::Assign(a) = &assign {
        if let Expr::Fn(f) = &*a.right {
            scanner.scan_fn_expr(f);
        }
    }
    let ctx = scanner.into_context();
    assert!(ctx.blocked.contains(20));
    v.start(ctx);
    assert!(v.expr_stmt_edit(&assign).is_none());
    let obj = ObjectLit {
        props: vec![PropOrSpread::KeyValue(KeyValueProp {
            key: PropName::Ident("k".to_string()),
            key_lo: 17,
            key_comments: vec![],
            value: Box::new(func(&["$a"], 20)),
        })],
        lo: 15,
    };
    assert!(v.object_lit_edits(&obj).is_empty());
}

#[test]
fn one_suspect_per_position() {
    // ngInject(fn) inside a chain names the same function twice.
    let v = visitor(true, false);
    let inner = CallExpr { callee: Callee::Expr(Box::new(ident("ngInject", 30))), args: vec![func(&["$a"], 39)], lo: 30 };
    let outer = method_call(ident("myMod", 0), "controller", vec![string("C", 17), func(&["$a"], 39)], 0);
    let mut scanner = Scanner::new(v.regexp(), v.enable_adf());
    scanner.scan_call_expr(&inner);
    scanner.scan_call_expr(&outer);
    let ctx = scanner.into_context();
    assert_eq!(ctx.suspects.iter().filter(|s| s.target_lo == 39).count(), 1);
    assert!(ctx.suspects[0].ng_inject_explicit);
}

#[test]
fn schedule_keeps_one_operation_per_name() {
    let mut v = visitor(true, false);
    let decl = FnDecl {
        ident: Ident { name: "Ctrl".to_string(), lo: 9 },
        function: function(&["$scope"], vec![BodyStmt::Str(Some("ngInject".to_string()))], 0),
    };
    let mut scanner = Scanner::new(v.regexp(), v.enable_adf());
    let mark = scanner.enter_stmt(0, vec![]);
    scanner.scan_fn_decl(&decl);
    scanner.leave_stmt(mark);
    let ctx = scanner.into_context();
    v.start(ctx);
    v.fn_decl(&decl);
    v.fn_decl(&decl);
    let slots = v.plan_pending_injects(&vec![Stmt { kind: StmtKind::Other, lo: 0 }]).expect("pending");
    assert_eq!(slot_summary(&slots), vec!["keep 0", "insert Ctrl $scope"]);
}

#[test]
fn chain_propagates_whatever_the_arguments() {
    let p = build_regexp("^nothing$").expect("valid");
    for (method, args) in [
        ("controller", vec![]),
        ("value", vec![string("v", 5)]),
        ("config", vec![func(&[], 5), func(&[], 9)]),
        ("component", vec![string("c", 5), ident("x", 9)]),
        ("directive", vec![ident("name", 5), func(&["$a"], 9)]),
    ] {
        let call = method_call(Expr::Other(0), method, args, 0);
        let d = match_call(&call, Some(CHAINED_REGULAR), &p, false).expect("matched on the chain");
        assert_eq!(d.chain_kind, Some(CHAINED_REGULAR));
    }
}

#[test]
fn no_inject_wins_within_a_comment() {
    assert_eq!(check_ng_inject_comment_at(&strs(&[" @ngInject @ngNoInject "])), NgInjectResult::NoInject);
    assert_eq!(check_ng_inject_comment_at(&strs(&[" @ngNoInject @ngInject "])), NgInjectResult::NoInject);
}

#[test]
fn remove_clears_every_inject_statement() {
    let mut v = visitor(false, true);
    let class_like = FnDecl {
        ident: Ident { name: "Svc".to_string(), lo: 9 },
        function: function(&["$http"], vec![BodyStmt::Str(Some("ngInject".to_string()))], 0),
    };
    let mut scanner = Scanner::new(v.regexp(), v.enable_adf());
    let mark = scanner.enter_stmt(0, vec![]);
    scanner.scan_fn_decl(&class_like);
    scanner.leave_stmt(mark);
    let ctx = scanner.into_context();
    v.start(ctx);
    v.fn_decl(&class_like);
    let stmts = vec![
        Stmt { kind: StmtKind::Other, lo: 0 },
        inject_assignment("Svc", 40),
        inject_assignment("Other", 80),
        inject_assignment("Svc", 120),
    ];
    let slots = v.plan_pending_injects(&stmts).expect("pending");
    assert_eq!(slot_summary(&slots), vec!["keep 0", "keep 2"]);
}

#[test]
fn add_inserts_after_each_declaration() {
    let mut v = visitor(true, false);
    let a = FnDecl {
        ident: Ident { name: "A".to_string(), lo: 9 },
        function: function(&["$a"], vec![BodyStmt::Str(Some("ngInject".to_string()))], 0),
    };
    let b = FnDecl {
        ident: Ident { name: "B".to_string(), lo: 49 },
        function: function(&["$b"], vec![BodyStmt::Str(Some("ngInject".to_string()))], 40),
    };
    let mut scanner = Scanner::new(v.regexp(), v.enable_adf());
    let m1 = scanner.enter_stmt(0, vec![]);
    scanner.scan_fn_decl(&a);
    scanner.leave_stmt(m1);
    let m2 = scanner.enter_stmt(40, vec![]);
    scanner.scan_fn_decl(&b);
    scanner.leave_stmt(m2);
    let ctx = scanner.into_context();
    v.start(ctx);
    v.fn_decl(&a);
    v.fn_decl(&b);
    let stmts = vec![Stmt { kind: StmtKind::Other, lo: 0 }, Stmt { kind: StmtKind::Other, lo: 40 }];
    let slots = v.plan_pending_injects(&stmts).expect("pending");
    assert_eq!(slot_summary(&slots), vec!["keep 0", "insert A $a", "keep 1", "insert B $b"]);
}

#[test]
fn class_constructor_request_reaches_the_class() {
    let class = Class {
        members: vec![ClassMember::Constructor(Constructor {
            params: vec![Some("$q".to_string())],
            body: Some(vec![]),
            lo: 12,
            comments: vec![" @ngInject ".to_string()],
        })],
        lo: 0,
        comments: vec![],
    };
    assert_eq!(swc_plugin_ng_annotate::scan::check_class_for_ng_directive(&class), NgInjectResult::Inject);
}

#[test]
fn rebuild_keeps_the_function() {
    let rebuild = started(true, true);
    let params = strs(&["$a", "$b"]);
    let w = Expr::Array(ArrayLit { elems: vec![Some(string("$old", 1)), Some(func(&["$a", "$b"], 8))], lo: 0 });
    let edit = rebuild.transform_expr(&w, &params).expect("restrings");
    let after = apply_edit(w, &edit).expect("applies");
    match &after {
        Expr::Array(a) => {
            assert_eq!(a.elems.len(), 3);
            assert!(matches!(&a.elems[0], Some(Expr::Str(s)) if s.value.as_deref() == Some("$a")));
            assert!(matches!(&a.elems[1], Some(Expr::Str(s)) if s.value.as_deref() == Some("$b")));
            assert!(matches!(&a.elems[2], Some(Expr::Fn(f)) if f.function.lo == 8));
        },
        _ => panic!("array expected"),
    }
    assert!(matches!(rebuild.transform_expr(&after, &params), Some(ExprEdit::Restring(s)) if s == params));
}

use swc_plugin_ng_annotate::ast::{
    ArrayLit, ArrowBody, ArrowExpr, AssignExpr, AssignTarget, BodyStmt, CallExpr, Callee, Class, ClassDecl, ClassMember,
    Constructor, DefaultDecl, Expr, FnDecl, FnExpr, Function, Ident, MemberExpr, MemberProp, MethodProp, ObjectLit,
    PropName, PropOrSpread, Stmt, StmtKind, StrLit, VarDeclarator,
};
use swc_plugin_ng_annotate::matchers::CHAINED_REGULAR;
use swc_plugin_ng_annotate::scan::{ScanContext, Scanner};
use swc_plugin_ng_annotate::transforms::{apply_edit, class_has_static_inject, is_inject_stmt, ExprEdit};
use swc_plugin_ng_annotate::utils::is_annotated_array;
use swc_plugin_ng_annotate::visitor::{apply_class_edit, PropEdit, Slot};
use swc_plugin_ng_annotate::{NgAnnotateVisitor, PluginConfig, RenameEntry};

fn ident(name: &str, lo: u32) -> Expr {
    Expr::Ident(Ident { name: name.to_string(), lo })
}

fn string(value: &str, lo: u32) -> Expr {
    Expr::Str(StrLit { value: Some(value.to_string()), lossy: value.to_string(), lo })
}

fn member(obj: Expr, prop: &str, lo: u32) -> Expr {
    Expr::Member(MemberExpr { obj: Box::new(obj), prop: MemberProp::Ident(prop.to_string()), lo })
}

fn method_call(obj: Expr, method: &str, args: Vec<Expr>, lo: u32) -> CallExpr {
    CallExpr { callee: Callee::Expr(Box::new(member(obj, method, lo))), args, lo }
}

fn function(params: &[&str], body: Vec<BodyStmt>, lo: u32) -> Function {
    Function { params: params.iter().map(|p| Some(p.to_string())).collect(), body: Some(body), lo, comments: vec![] }
}

fn func(params: &[&str], lo: u32) -> Expr {
    Expr::Fn(FnExpr { ident: None, function: function(params, vec![], lo) })
}

fn strs(v: &[&str]) -> Vec<String> {
    v.iter().map(|s| s.to_string()).collect()
}

fn config(add: bool, remove: bool) -> PluginConfig {
    PluginConfig { add, remove, ..Default::default() }
}

fn visitor(c: PluginConfig) -> NgAnnotateVisitor {
    NgAnnotateVisitor::new(c).expect("a pattern compiles")
}

fn other_stmt(lo: u32) -> Stmt {
    Stmt { kind: StmtKind::Other, lo }
}

fn inject_assignment(name: &str, lo: u32) -> Stmt {
    Stmt {
        kind: StmtKind::Expr(Expr::Assign(AssignExpr {
            is_plain: true,
            left: AssignTarget::Member(MemberExpr {
                obj: Box::new(ident(name, lo)),
                prop: MemberProp::Ident("$inject".to_string()),
                lo,
            }),
            right: Box::new(Expr::Array(ArrayLit { elems: vec![Some(string("$old", lo + 20))], lo: lo + 19 })),
            lo,
        })),
        lo,
    }
}

/// `angular.module("app", [])` at `lo`.
fn module_call(lo: u32) -> CallExpr {
    method_call(ident("angular", lo), "module", vec![string("app", lo + 15), Expr::Array(ArrayLit { elems: vec![], lo: lo + 22 })], lo)
}

/// `angular.module("app", []).<method>("Ctrl", <target>)` at `lo`.
fn chained_call(lo: u32, method: &str, target: Expr) -> CallExpr {
    method_call(Expr::Call(module_call(lo)), method, vec![string("Ctrl", lo + 38), target], lo)
}

/// Scans one expression statement `call;` at `lo`, in the order the
/// traversal runs the hooks: the statement, the inner chain call, the
/// function argument, then the outer call.
fn scan_chain(scanner: &mut Scanner, lo: u32, call: &CallExpr) {
    let mark = scanner.enter_stmt(lo, vec![]);
    if let Callee::Expr(callee) = &call.callee {
        if let Expr::Member(m) = &**callee {
            if let Expr::Call(inner) = &*m.obj {
                scanner.scan_call_expr(inner);
            }
        }
    }
    for arg in &call.args {
        match arg {
            Expr::Fn(f) => scanner.scan_fn_expr(f),
            Expr::Arrow(a) => scanner.scan_arrow_expr(a),
            Expr::Array(a) => {
                for e in a.elems.iter().flatten() {
                    if let Expr::Fn(f) = e {
                        scanner.scan_fn_expr(f);
                    }
                }
            },
            _ => {},
        }
    }
    scanner.scan_call_expr(call);
    scanner.leave_stmt(mark);
}

fn scan_one_chain(v: &NgAnnotateVisitor, call: &CallExpr) -> ScanContext {
    let mut scanner = Scanner::new(v.regexp(), v.enable_adf());
    scan_chain(&mut scanner, 0, call);
    scanner.into_context()
}

fn single_arg_edit(v: &mut NgAnnotateVisitor, call: &CallExpr) -> Option<(usize, ExprEdit)> {
    let mut edits = v.call_expr_edits(call);
    assert!(edits.props.is_empty());
    assert!(edits.args.len() <= 1);
    edits.args.pop().map(|e| (e.index, e.edit))
}

fn str_values(e: &Expr) -> Vec<String> {
    match e {
        Expr::Array(a) => a
            .elems
            .iter()
            .filter_map(|x| match x {
                Some(Expr::Str(s)) => s.value.clone(),
                _ => None,
            })
            .collect(),
        _ => panic!("array expected"),
    }
}

#[test]
fn add_wraps_chained_function() {
    let mut v = visitor(config(true, false));
    let call = chained_call(0, "controller", func(&["$scope", "$http"], 46));
    let ctx = scan_one_chain(&v, &call);
    assert!(ctx.chained.contains(0));
    assert_eq!(ctx.chain_kinds.get(0), Some(CHAINED_REGULAR));
    v.start(ctx);
    assert!(v.is_suspect(46));
    let (index, edit) = single_arg_edit(&mut v, &call).expect("an edit");
    assert_eq!(index, 1);
    match &edit {
        ExprEdit::Wrap(s) => assert_eq!(s, &strs(&["$scope", "$http"])),
        _ => panic!("wrap expected"),
    }
    let after = apply_edit(func(&["$scope", "$http"], 46), &edit).expect("applies");
    assert!(is_annotated_array(&after));
    assert_eq!(str_values(&after), strs(&["$scope", "$http"]));
    // The inner module call has no function argument to change.
    assert!(v.call_expr_edits(&module_call(0)).args.is_empty());
}

#[test]
fn add_leaves_function_without_parameters() {
    let mut v = visitor(config(true, false));
    let call = chained_call(0, "controller", func(&[], 46));
    let ctx = scan_one_chain(&v, &call);
    v.start(ctx);
    assert!(single_arg_edit(&mut v, &call).is_none());
}

#[test]
fn add_arrow_function() {
    let mut v = visitor(config(true, false));
    let arrow = Expr::Arrow(ArrowExpr {
        params: vec![Some("$timeout".to_string())],
        body: ArrowBody::Block(vec![]),
        lo: 46,
        comments: vec![],
    });
    let call = chained_call(0, "directive", arrow);
    let ctx = scan_one_chain(&v, &call);
    v.start(ctx);
    match single_arg_edit(&mut v, &call) {
        Some((1, ExprEdit::Wrap(s))) => assert_eq!(s, strs(&["$timeout"])),
        _ => panic!("wrap expected"),
    }
}

#[test]
fn add_renames_annotation_strings() {
    let mut c = config(true, false);
    c.rename = Some(vec![
        RenameEntry { from: "$a".to_string(), to: "$aRenamed".to_string() },
        RenameEntry { from: "$b".to_string(), to: "$bRenamed".to_string() },
        RenameEntry { from: "$c".to_string(), to: "$cRenamed".to_string() },
    ]);
    let mut v = visitor(c);
    let call = chained_call(0, "controller", func(&["$a", "$b", "$d"], 46));
    let ctx = scan_one_chain(&v, &call);
    v.start(ctx);
    match single_arg_edit(&mut v, &call) {
        Some((1, ExprEdit::Wrap(s))) => assert_eq!(s, strs(&["$aRenamed", "$bRenamed", "$d"])),
        _ => panic!("wrap expected"),
    }
}

#[test]
fn add_with_custom_module_pattern() {
    let mut c = config(true, false);
    c.regexp = Some("^myMod".to_string());
    let mut v = visitor(c);
    assert_eq!(v.regexp().source().as_str(), "^myMod");
    let mine = method_call(ident("myMod", 0), "controller", vec![string("C", 17), func(&["$scope"], 22)], 0);
    let theirs = method_call(ident("theirMod", 40), "controller", vec![string("C", 60), func(&["$scope"], 65)], 40);
    let mut scanner = Scanner::new(v.regexp(), v.enable_adf());
    scanner.scan_fn_expr(match &mine.args[1] {
        Expr::Fn(f) => f,
        _ => unreachable!(),
    });
    scanner.scan_call_expr(&mine);
    scanner.scan_call_expr(&theirs);
    let ctx = scanner.into_context();
    v.start(ctx);
    assert!(single_arg_edit(&mut v, &mine).is_some());
    assert!(single_arg_edit(&mut v, &theirs).is_none());
}

#[test]
fn invalid_pattern_falls_back_to_default() {
    let mut c = config(true, false);
    c.regexp = Some("(".to_string());
    let v = visitor(c);
    assert_eq!(v.regexp().source().as_str(), "^[a-zA-Z0-9_$.\\s]+$");
}

#[test]
fn remove_unwraps_annotated_array() {
    let mut v = visitor(config(false, true));
    let annotated = Expr::Array(ArrayLit { elems: vec![Some(string("$scope", 47)), Some(func(&["$scope"], 57))], lo: 46 });
    let call = chained_call(0, "controller", annotated);
    let ctx = scan_one_chain(&v, &call);
    v.start(ctx);
    match single_arg_edit(&mut v, &call) {
        Some((1, ExprEdit::Unwrap)) => {},
        _ => panic!("unwrap expected"),
    }
    // A bare function is left alone when removing.
    let mut v2 = visitor(config(false, true));
    let bare = chained_call(0, "controller", func(&["$scope"], 46));
    let ctx2 = scan_one_chain(&v2, &bare);
    v2.start(ctx2);
    assert!(single_arg_edit(&mut v2, &bare).is_none());
}

#[test]
fn rebuild_restrings_and_wraps() {
    let mut v = visitor(config(true, true));
    let annotated = Expr::Array(ArrayLit { elems: vec![Some(string("$wrong", 47)), Some(func(&["$scope", "$q"], 57))], lo: 46 });
    let call = chained_call(0, "controller", annotated);
    let ctx = scan_one_chain(&v, &call);
    v.start(ctx);
    match single_arg_edit(&mut v, &call) {
        Some((1, ExprEdit::Restring(s))) => assert_eq!(s, strs(&["$scope", "$q"])),
        _ => panic!("restring expected"),
    }
    let mut v2 = visitor(config(true, true));
    let bare = chained_call(0, "controller", func(&["$scope"], 46));
    let ctx2 = scan_one_chain(&v2, &bare);
    v2.start(ctx2);
    match single_arg_edit(&mut v2, &bare) {
        Some((1, ExprEdit::Wrap(s))) => assert_eq!(s, strs(&["$scope"])),
        _ => panic!("wrap expected"),
    }
}

#[test]
fn ng_no_inject_comment_blocks_annotation() {
    let mut v = visitor(config(true, false));
    let arrow = Expr::Arrow(ArrowExpr {
        params: vec![Some("$scope".to_string())],
        body: ArrowBody::Block(vec![]),
        lo: 60,
        comments: vec![" @ngNoInject ".to_string()],
    });
    let call = chained_call(0, "controller", arrow);
    let ctx = scan_one_chain(&v, &call);
    assert!(ctx.blocked.contains(60));
    v.start(ctx);
    assert!(v.is_blocked(60));
    assert!(!v.is_suspect(60));
    assert!(single_arg_edit(&mut v, &call).is_none());
}

#[test]
fn calls_outside_chains_are_left_alone() {
    let mut v = visitor(config(true, false));
    let call = method_call(ident("lodash", 0), "map", vec![func(&["x"], 11)], 0);
    let mut scanner = Scanner::new(v.regexp(), v.enable_adf());
    scanner.scan_call_expr(&call);
    let ctx = scanner.into_context();
    assert!(!ctx.chained.contains(0));
    v.start(ctx);
    let edits = v.call_expr_edits(&call);
    assert!(edits.args.is_empty() && edits.props.is_empty());
}

fn ctrl_decl(directive: bool) -> FnDecl {
    let body = if directive { vec![BodyStmt::Str(Some("ngInject".to_string()))] } else { vec![] };
    FnDecl { ident: Ident { name: "Ctrl".to_string(), lo: 9 }, function: function(&["$scope"], body, 0) }
}

fn scan_decl(v: &NgAnnotateVisitor, decl: &FnDecl) -> ScanContext {
    let mut scanner = Scanner::new(v.regexp(), v.enable_adf());
    let mark = scanner.enter_stmt(0, vec![]);
    scanner.scan_fn_decl(decl);
    scanner.leave_stmt(mark);
    scanner.into_context()
}

fn slot_summary(slots: &[Slot]) -> Vec<String> {
    slots
        .iter()
        .map(|s| match s {
            Slot::Keep(j) => format!("keep {}", j),
            Slot::Insert(i) => format!("insert {} {:?} {}", i.name, i.ident_lo, i.strings.join(",")),
        })
        .collect()
}

#[test]
fn add_ng_inject_declaration_inserts_statement() {
    let mut v = visitor(config(true, false));
    let decl = ctrl_decl(true);
    let ctx = scan_decl(&v, &decl);
    assert!(ctx.ng_inject_explicit.contains(0));
    assert_eq!(ctx.decl_map.get("Ctrl").map(|d| d.stmt_lo), Some(0));
    v.start(ctx);
    v.fn_decl(&decl);
    let stmts = vec![other_stmt(0), other_stmt(40)];
    let slots = v.plan_pending_injects(&stmts).expect("something pending");
    assert_eq!(slot_summary(&slots), vec!["keep 0", "insert Ctrl Some(9) $scope", "keep 1"]);
    // Done operations leave the pending list.
    assert!(v.plan_pending_injects(&stmts).is_none());
}

#[test]
fn block_comment_requests_injection() {
    let mut v = visitor(config(true, false));
    let mut decl = ctrl_decl(false);
    decl.function.comments = vec!["*\n * @ngInject\n ".to_string()];
    let ctx = scan_decl(&v, &decl);
    v.start(ctx);
    v.fn_decl(&decl);
    let slots = v.plan_pending_injects(&vec![other_stmt(0)]).expect("something pending");
    assert_eq!(slot_summary(&slots), vec!["keep 0", "insert Ctrl Some(9) $scope"]);
}

#[test]
fn declaration_without_request_is_left_alone() {
    let mut v = visitor(config(true, false));
    let decl = ctrl_decl(false);
    let ctx = scan_decl(&v, &decl);
    v.start(ctx);
    v.fn_decl(&decl);
    assert!(v.plan_pending_injects(&vec![other_stmt(0)]).is_none());
}

#[test]
fn has_inject_noop() {
    let mut v = visitor(config(true, false));
    let decl = ctrl_decl(true);
    let ctx = scan_decl(&v, &decl);
    v.start(ctx);
    v.fn_decl(&decl);
    let stmts = vec![other_stmt(0), inject_assignment("Ctrl", 40)];
    assert!(is_inject_stmt(&stmts[1], "Ctrl"));
    let slots = v.plan_pending_injects(&stmts).expect("something pending");
    assert_eq!(slot_summary(&slots), vec!["keep 0", "keep 1"]);
}

#[test]
fn has_inject_remove() {
    let mut v = visitor(config(false, true));
    let decl = ctrl_decl(true);
    let ctx = scan_decl(&v, &decl);
    v.start(ctx);
    v.fn_decl(&decl);
    let stmts = vec![other_stmt(0), inject_assignment("Ctrl", 40), other_stmt(80)];
    let slots = v.plan_pending_injects(&stmts).expect("something pending");
    assert_eq!(slot_summary(&slots), vec!["keep 0", "keep 2"]);
}

#[test]
fn rebuild_replaces_existing_statement_in_place() {
    let mut v = visitor(config(true, true));
    let decl = ctrl_decl(true);
    let ctx = scan_decl(&v, &decl);
    v.start(ctx);
    v.fn_decl(&decl);
    let stmts = vec![other_stmt(0), other_stmt(40), inject_assignment("Ctrl", 80), other_stmt(120)];
    let slots = v.plan_pending_injects(&stmts).expect("something pending");
    assert_eq!(slot_summary(&slots), vec!["keep 0", "keep 1", "insert Ctrl Some(9) $scope", "keep 3"]);
}

#[test]
fn pending_operations_wait_for_their_list() {
    let mut v = visitor(config(true, false));
    let decl = ctrl_decl(true);
    let ctx = scan_decl(&v, &decl);
    v.start(ctx);
    v.fn_decl(&decl);
    // An inner block that does not hold the declaration.
    let inner = vec![other_stmt(5), other_stmt(7)];
    let slots = v.plan_pending_injects(&inner).expect("something pending");
    assert_eq!(slot_summary(&slots), vec!["keep 0", "keep 1"]);
    let outer = vec![other_stmt(0)];
    let slots2 = v.plan_pending_injects(&outer).expect("still pending");
    assert_eq!(slot_summary(&slots2), vec!["keep 0", "insert Ctrl Some(9) $scope"]);
}

#[test]
fn reference_following() {
    let mut v = visitor(config(true, false));
    let decl = FnDecl { ident: Ident { name: "Svc".to_string(), lo: 9 }, function: function(&["$http"], vec![], 0) };
    let call = chained_call(30, "service", ident("Svc", 80));
    let mut scanner = Scanner::new(v.regexp(), v.enable_adf());
    let mark = scanner.enter_stmt(0, vec![]);
    scanner.scan_fn_decl(&decl);
    scanner.leave_stmt(mark);
    scan_chain(&mut scanner, 30, &call);
    let ctx = scanner.into_context();
    v.start(ctx);
    v.fn_decl(&decl);
    let edits = v.call_expr_edits(&call);
    assert!(edits.args.is_empty());
    let stmts = vec![other_stmt(0), other_stmt(30)];
    let slots = v.plan_pending_injects(&stmts).expect("scheduled by the reference");
    assert_eq!(slot_summary(&slots), vec!["keep 0", "insert Svc Some(80) $http", "keep 1"]);
}

fn ctrl_class(directive: bool) -> ClassDecl {
    let body = if directive { vec![BodyStmt::Str(Some("ngInject".to_string()))] } else { vec![] };
    ClassDecl {
        ident: Ident { name: "Svc".to_string(), lo: 6 },
        class: Class {
            members: vec![ClassMember::Constructor(Constructor {
                params: vec![Some("$http".to_string())],
                body: Some(body),
                lo: 12,
                comments: vec![],
            })],
            lo: 0,
            comments: vec![],
        },
    }
}

fn scan_class(v: &NgAnnotateVisitor, decl: &ClassDecl) -> ScanContext {
    let mut scanner = Scanner::new(v.regexp(), v.enable_adf());
    let mark = scanner.enter_stmt(0, vec![]);
    scanner.scan_class_decl(decl);
    scanner.leave_stmt(mark);
    scanner.into_context()
}

#[test]
fn es6_classes_get_static_inject() {
    let mut v = visitor(config(true, false));
    let mut decl = ctrl_class(true);
    let ctx = scan_class(&v, &decl);
    v.start(ctx);
    let edit = v.class_decl_edit(&decl).expect("an edit");
    assert!(!edit.remove_existing);
    assert_eq!(edit.add.as_ref().expect("strings"), &strs(&["$http"]));
    apply_class_edit(&mut decl.class, &edit);
    assert!(class_has_static_inject(&decl.class));
    assert_eq!(decl.class.members.len(), 2);
    // Adding again finds the property and does nothing.
    assert!(v.class_decl_edit(&decl).is_none());

    let mut r = visitor(config(false, true));
    let ctx2 = scan_class(&r, &decl);
    r.start(ctx2);
    let removal = r.class_decl_edit(&decl).expect("an edit");
    assert!(removal.remove_existing && removal.add.is_none());
    apply_class_edit(&mut decl.class, &removal);
    assert!(!class_has_static_inject(&decl.class));
    assert_eq!(decl.class.members.len(), 1);
}

#[test]
fn class_without_request_is_left_alone() {
    let mut v = visitor(config(true, false));
    let decl = ctrl_class(false);
    let ctx = scan_class(&v, &decl);
    v.start(ctx);
    assert!(v.class_decl_edit(&decl).is_none());
}

#[test]
fn object_methods_with_request_become_annotated() {
    let obj = ObjectLit {
        props: vec![
            PropOrSpread::Method(MethodProp {
                key: PropName::Ident("init".to_string()),
                key_lo: 27,
                key_comments: vec![" @ngInject ".to_string()],
                function: function(&["$q"], vec![], 27),
            }),
            PropOrSpread::Method(MethodProp {
                key: PropName::Ident("plain".to_string()),
                key_lo: 50,
                key_comments: vec![],
                function: function(&["$x"], vec![], 50),
            }),
        ],
        lo: 8,
    };
    let mut v = visitor(config(true, false));
    let mut scanner = Scanner::new(v.regexp(), v.enable_adf());
    scanner.scan_object_lit(&obj);
    let ctx = scanner.into_context();
    v.start(ctx);
    let edits = v.object_lit_edits(&obj);
    assert_eq!(edits.len(), 1);
    assert_eq!((edits[0].arg, edits[0].prop), (0, 0));
    match &edits[0].edit {
        PropEdit::MethodToAnnotated(s) => assert_eq!(s, &strs(&["$q"])),
        _ => panic!("method edit expected"),
    }
    let mut r = visitor(config(false, true));
    let mut scanner2 = Scanner::new(r.regexp(), r.enable_adf());
    scanner2.scan_object_lit(&obj);
    let ctx2 = scanner2.into_context();
    r.start(ctx2);
    assert!(r.object_lit_edits(&obj).is_empty());
}

#[test]
fn anonymous_default_export_is_wrapped() {
    let f = FnExpr {
        ident: None,
        function: function(&["$http"], vec![BodyStmt::Str(Some("ngInject".to_string()))], 15),
    };
    let mut v = visitor(config(true, false));
    let mut scanner = Scanner::new(v.regexp(), v.enable_adf());
    scanner.scan_fn_expr(&f);
    let ctx = scanner.into_context();
    v.start(ctx);
    assert_eq!(v.default_fn_wrap(&f), Some(strs(&["$http"])));
    let mut r = visitor(config(false, true));
    let mut scanner2 = Scanner::new(r.regexp(), r.enable_adf());
    scanner2.scan_fn_expr(&f);
    let ctx2 = scanner2.into_context();
    r.start(ctx2);
    assert_eq!(r.default_fn_wrap(&f), None);
}

#[test]
fn named_default_export_schedules_after_export() {
    let f = FnExpr {
        ident: Some(Ident { name: "Ctrl".to_string(), lo: 24 }),
        function: function(&["$scope"], vec![BodyStmt::Str(Some("ngInject".to_string()))], 15),
    };
    let mut v = visitor(config(true, false));
    let mut scanner = Scanner::new(v.regexp(), v.enable_adf());
    scanner.scan_fn_expr(&f);
    let ctx = scanner.into_context();
    v.start(ctx);
    assert!(v.export_default_decl(&DefaultDecl::Fn(f), 0).is_none());
    let slots = v.plan_pending_injects(&vec![other_stmt(0), other_stmt(60)]).expect("scheduled");
    assert_eq!(slot_summary(&slots), vec!["keep 0", "insert Ctrl Some(24) $scope", "keep 1"]);
}

#[test]
fn provider_get_assignment_is_annotated() {
    let assign = Expr::Assign(AssignExpr {
        is_plain: true,
        left: AssignTarget::Member(MemberExpr {
            obj: Box::new(Expr::This(0)),
            prop: MemberProp::Ident("$get".to_string()),
            lo: 0,
        }),
        right: Box::new(func(&["$q"], 12)),
        lo: 0,
    });
    let mut v = visitor(config(true, false));
    let mut scanner = Scanner::new(v.regexp(), v.enable_adf());
    scanner.scan_expr_stmt(&assign);
    let ctx = scanner.into_context();
    assert_eq!(ctx.suspects.len(), 1);
    assert_eq!(ctx.suspects[0].method_name.as_deref(), Some("provider"));
    assert!(ctx.suspects[0].context_dependent);
    v.start(ctx);
    match v.expr_stmt_edit(&assign) {
        Some(ExprEdit::Wrap(s)) => assert_eq!(s, strs(&["$q"])),
        _ => panic!("wrap expected"),
    }
}

#[test]
fn ng_inject_call_marks_its_argument() {
    let call = CallExpr { callee: Callee::Expr(Box::new(ident("ngInject", 0))), args: vec![func(&["$a"], 9)], lo: 0 };
    let v = visitor(config(true, false));
    let mut scanner = Scanner::new(v.regexp(), v.enable_adf());
    scanner.scan_call_expr(&call);
    let ctx = scanner.into_context();
    assert!(ctx.ng_inject_explicit.contains(9));
    assert_eq!(ctx.suspects.len(), 1);
    assert!(ctx.suspects[0].ng_inject_explicit);
    let block = CallExpr { callee: Callee::Expr(Box::new(ident("ngNoInject", 0))), args: vec![func(&["$a"], 11)], lo: 0 };
    let mut scanner2 = Scanner::new(v.regexp(), v.enable_adf());
    scanner2.scan_call_expr(&block);
    let ctx2 = scanner2.into_context();
    assert!(ctx2.blocked.contains(11));
    assert!(ctx2.suspects.is_empty());
}

fn kv(key: &str, value: Expr, key_lo: u32) -> PropOrSpread {
    PropOrSpread::KeyValue(swc_plugin_ng_annotate::ast::KeyValueProp {
        key: PropName::Ident(key.to_string()),
        key_lo,
        key_comments: vec![],
        value: Box::new(value),
    })
}

fn obj(props: Vec<PropOrSpread>, lo: u32) -> ObjectLit {
    ObjectLit { props, lo }
}

#[test]
fn state_views_and_resolve_are_followed() {
    let resolve_top = obj(vec![kv("r", func(&["$d"], 160), 157)], 150);
    let view_resolve = obj(vec![kv("d", func(&["$c"], 120), 117)], 110);
    let main = obj(vec![kv("controllerProvider", func(&["$b"], 80), 60), kv("resolve", Expr::Object(view_resolve), 100)], 58);
    let views = obj(vec![kv("main", Expr::Object(main), 52)], 50);
    let cfg = obj(
        vec![kv("controller", func(&["$a"], 40), 28), kv("views", Expr::Object(views), 45), kv("resolve", Expr::Object(resolve_top), 140)],
        26,
    );
    let call = method_call(ident("$stateProvider", 0), "state", vec![string("home", 21), Expr::Object(cfg)], 0);
    let mut v = visitor(config(true, false));
    let mut scanner = Scanner::new(v.regexp(), v.enable_adf());
    scanner.scan_call_expr(&call);
    let ctx = scanner.into_context();
    let los: Vec<u32> = ctx.suspects.iter().map(|s| s.target_lo).collect();
    assert_eq!(los, vec![40, 160, 80, 120]);
    assert!(ctx.suspects.iter().all(|s| s.method_name.as_deref() == Some("state")));
    v.start(ctx);
    let edits = v.call_expr_edits(&call);
    assert!(edits.args.is_empty());
    assert_eq!(edits.props.len(), 1);
    assert_eq!((edits.props[0].arg, edits.props[0].prop), (1, 0));
    match &edits.props[0].edit {
        PropEdit::Value(ExprEdit::Wrap(s)) => assert_eq!(s, &strs(&["$a"])),
        _ => panic!("value wrap expected"),
    }
    let nested = obj(vec![kv("r", func(&["$d"], 160), 157)], 150);
    let nested_edits = v.object_lit_edits(&nested);
    assert_eq!(nested_edits.len(), 1);
    assert!(matches!(&nested_edits[0].edit, PropEdit::Value(ExprEdit::Wrap(s)) if s == &strs(&["$d"])));
}

#[test]
fn dashboard_edit_paths_are_followed() {
    let edit = obj(vec![kv("controller", func(&["$e"], 90), 80), kv("apply", func(&["$f"], 120), 110)], 75);
    let cfg = obj(vec![kv("edit", Expr::Object(edit), 70)], 65);
    let call = method_call(ident("dashboardProvider", 0), "widget", vec![string("w", 30), Expr::Object(cfg)], 0);
    let mut c = config(true, false);
    c.enable = Some(vec!["angular-dashboard-framework".to_string()]);
    let v = visitor(c);
    assert!(v.enable_adf());
    let mut scanner = Scanner::new(v.regexp(), v.enable_adf());
    scanner.scan_call_expr(&call);
    let ctx = scanner.into_context();
    let los: Vec<u32> = ctx.suspects.iter().map(|s| s.target_lo).collect();
    assert_eq!(los, vec![90, 120]);
    assert_eq!(ctx.chain_kinds.get(0), Some(swc_plugin_ng_annotate::matchers::CHAINED_ADF));
}

#[test]
fn directive_return_object_controller_is_a_suspect() {
    let ret = Expr::Object(obj(vec![kv("restrict", string("E", 20), 10), kv("controller", func(&["$scope"], 45), 30)], 8));
    let v = visitor(config(true, false));
    let mut scanner = Scanner::new(v.regexp(), v.enable_adf());
    scanner.scan_return_stmt(Some(&ret));
    let ctx = scanner.into_context();
    assert_eq!(ctx.suspects.len(), 1);
    assert_eq!(ctx.suspects[0].target_lo, 45);
    assert_eq!(ctx.suspects[0].method_name.as_deref(), Some("directive"));
    assert!(ctx.suspects[0].context_dependent);
}

#[test]
fn variable_with_request_schedules_after_its_statement() {
    let decl = VarDeclarator {
        name: Some(Ident { name: "ctrl".to_string(), lo: 4 }),
        init: Some(Box::new(Expr::Arrow(ArrowExpr {
            params: vec![Some("$log".to_string())],
            body: ArrowBody::Block(vec![]),
            lo: 11,
            comments: vec![],
        }))),
        lo: 4,
    };
    let mut v = visitor(config(true, false));
    let mut scanner = Scanner::new(v.regexp(), v.enable_adf());
    let mark = scanner.enter_stmt(0, vec![" @ngInject ".to_string()]);
    scanner.scan_var_declarator(&decl);
    scanner.leave_stmt(mark);
    let ctx = scanner.into_context();
    assert!(ctx.ng_inject_explicit.contains(4));
    assert_eq!(ctx.decl_map.get("ctrl").map(|d| d.params.clone()), Some(strs(&["$log"])));
    v.start(ctx);
    v.var_declarator(&decl);
    let slots = v.plan_pending_injects(&vec![other_stmt(0), other_stmt(30)]).expect("scheduled");
    assert_eq!(slot_summary(&slots), vec!["keep 0", "insert ctrl Some(4) $log", "keep 1"]);
}

#[test]
fn property_index_past_the_end_gives_nothing() {
    let mut v = visitor(config(true, false));
    let ctx = Scanner::new(v.regexp(), v.enable_adf()).into_context();
    v.start(ctx);
    let props = vec![kv("a", func(&["$a"], 5), 1)];
    assert!(v.transform_object_prop_at(&props, 1).is_none());
    assert!(v.transform_object_prop_at(&props, 7).is_none());
}

use swc_plugin_ng_annotate::ast::{
    ArrayLit, ArrowBody, ArrowExpr, AssignExpr, AssignTarget, BodyStmt, CallExpr, Callee, Class, ClassMember, ClassProp,
    Constructor, Expr, FnDecl, FnExpr, Function, Ident, KeyValueProp, MemberExpr, MemberProp, MethodProp, PropName,
    PropOrSpread, Stmt, StmtKind, StrLit, VarDeclarator,
};
use swc_plugin_ng_annotate::config::RenameMap;
use swc_plugin_ng_annotate::nginject::{
    check_arrow_for_ng_directive, check_fn_decl_for_ng_directive, check_fn_expr_for_ng_directive,
    check_ng_inject_comment_at, check_var_declarator_for_ng_directive, inspect_call_for_ng_call,
    inspect_fn_body_for_ng_directive, NgInjectResult,
};
use swc_plugin_ng_annotate::scan::{check_class_for_ng_directive, extract_annotated_array_params, extract_class_constructor_params};
use swc_plugin_ng_annotate::transforms::{
    apply_edit, build_annotation_strings, class_has_static_inject, is_inject_stmt, make_inject_stmt,
    make_static_inject_prop, method_to_annotated_kv, reconstruct_member_name, remove_static_inject_from_class,
    replace_annotation_array_strings, unwrap_annotated_method_kv, unwrap_annotation_array, wrap_in_annotation_array,
    ExprEdit,
};
use swc_plugin_ng_annotate::utils::{
    extract_params, get_fn_params, get_str_val_lossy, has_prop, is_annotated_array, is_fn_or_arrow, is_fn_with_args,
    is_string_lit, make_ident, make_str_lit, match_prop_in_object, match_resolve_values,
};
use swc_plugin_ng_annotate::{PluginConfig, RenameEntry};

fn ident(name: &str, lo: u32) -> Expr {
    Expr::Ident(Ident { name: name.to_string(), lo })
}

fn string(value: &str, lo: u32) -> Expr {
    Expr::Str(StrLit { value: Some(value.to_string()), lossy: value.to_string(), lo })
}

fn function(params: &[&str], body: Vec<BodyStmt>, lo: u32, comments: &[&str]) -> Function {
    Function {
        params: params.iter().map(|p| Some(p.to_string())).collect(),
        body: Some(body),
        lo,
        comments: comments.iter().map(|c| c.to_string()).collect(),
    }
}

fn func(params: &[&str], lo: u32) -> Expr {
    Expr::Fn(FnExpr { ident: None, function: function(params, vec![], lo, &[]) })
}

fn arrow(params: &[&str], body: Vec<BodyStmt>, lo: u32) -> ArrowExpr {
    ArrowExpr {
        params: params.iter().map(|p| Some(p.to_string())).collect(),
        body: ArrowBody::Block(body),
        lo,
        comments: vec![],
    }
}

fn directive(text: &str) -> BodyStmt {
    BodyStmt::Str(Some(text.to_string()))
}

fn kv(key: &str, value: Expr) -> PropOrSpread {
    PropOrSpread::KeyValue(KeyValueProp {
        key: PropName::Ident(key.to_string()),
        key_lo: 0,
        key_comments: vec![],
        value: Box::new(value),
    })
}

fn strs(v: &[&str]) -> Vec<String> {
    v.iter().map(|s| s.to_string()).collect()
}

fn no_renames() -> RenameMap {
    RenameMap::empty()
}

fn renames(pairs: &[(&str, &str)]) -> RenameMap {
    let mut c = PluginConfig { add: true, ..Default::default() };
    c.rename = Some(pairs.iter().map(|(f, t)| RenameEntry { from: f.to_string(), to: t.to_string() }).collect());
    c.rename_map()
}

fn str_elems(e: &Expr) -> Vec<String> {
    match e {
        Expr::Array(a) => a
            .elems
            .iter()
            .filter_map(|x| match x {
                Some(Expr::Str(s)) => s.value.clone(),
                _ => None,
            })
            .collect(),
        _ => panic!("not an array"),
    }
}

fn inject_stmt(obj: Expr, prop: MemberProp, plain: bool) -> Stmt {
    Stmt {
        kind: StmtKind::Expr(Expr::Assign(AssignExpr {
            is_plain: plain,
            left: AssignTarget::Member(MemberExpr { obj: Box::new(obj), prop, lo: 0 }),
            right: Box::new(Expr::Array(ArrayLit { elems: vec![], lo: 0 })),
            lo: 0,
        })),
        lo: 0,
    }
}

#[test]
fn prologue_directives() {
    assert_eq!(inspect_fn_body_for_ng_directive(&vec![directive("ngInject")]), Some(true));
    assert_eq!(inspect_fn_body_for_ng_directive(&vec![directive("use strict"), directive("ngNoInject")]), Some(false));
    assert_eq!(inspect_fn_body_for_ng_directive(&vec![BodyStmt::Other, directive("ngInject")]), None);
    assert_eq!(inspect_fn_body_for_ng_directive(&vec![directive("use strict")]), None);
    assert_eq!(inspect_fn_body_for_ng_directive(&vec![BodyStmt::Str(None), directive("ngInject")]), Some(true));
    assert_eq!(inspect_fn_body_for_ng_directive(&vec![]), None);
}

#[test]
fn directive_checks_by_node() {
    let f = FnExpr { ident: None, function: function(&["$a"], vec![directive("ngInject")], 10, &[]) };
    assert_eq!(check_fn_expr_for_ng_directive(&f), NgInjectResult::Inject);
    let d = FnDecl { ident: Ident { name: "f".to_string(), lo: 9 }, function: function(&["$a"], vec![directive("ngNoInject")], 0, &[]) };
    assert_eq!(check_fn_decl_for_ng_directive(&d), NgInjectResult::NoInject);
    let a = arrow(&["$a"], vec![], 5);
    assert_eq!(check_arrow_for_ng_directive(&a), NgInjectResult::NoDirective);
    let expr_body = ArrowExpr { params: vec![], body: ArrowBody::Expr(Box::new(ident("x", 8))), lo: 5, comments: vec![] };
    assert_eq!(check_arrow_for_ng_directive(&expr_body), NgInjectResult::NoDirective);
    let v = VarDeclarator {
        name: Some(Ident { name: "x".to_string(), lo: 4 }),
        init: Some(Box::new(Expr::Arrow(arrow(&["$q"], vec![directive("ngInject")], 8)))),
        lo: 4,
    };
    assert_eq!(check_var_declarator_for_ng_directive(&v), NgInjectResult::Inject);
    let none = VarDeclarator { name: Some(Ident { name: "x".to_string(), lo: 4 }), init: None, lo: 4 };
    assert_eq!(check_var_declarator_for_ng_directive(&none), NgInjectResult::NoDirective);
}

#[test]
fn comments_first_request_wins() {
    assert_eq!(check_ng_inject_comment_at(&strs(&["* @ngInject "])), NgInjectResult::Inject);
    assert_eq!(check_ng_inject_comment_at(&strs(&[" @ngNoInject"])), NgInjectResult::NoInject);
    assert_eq!(check_ng_inject_comment_at(&strs(&["plain", " @ngInject"])), NgInjectResult::Inject);
    assert_eq!(check_ng_inject_comment_at(&strs(&[" @ngNoInject", " @ngInject"])), NgInjectResult::NoInject);
    assert_eq!(check_ng_inject_comment_at(&strs(&[" @ngInject", " @ngNoInject"])), NgInjectResult::Inject);
    assert_eq!(check_ng_inject_comment_at(&strs(&["ngInject without at"])), NgInjectResult::NoDirective);
    assert_eq!(check_ng_inject_comment_at(&vec![]), NgInjectResult::NoDirective);
}

#[test]
fn ng_inject_calls() {
    let call = CallExpr { callee: Callee::Expr(Box::new(ident("ngInject", 0))), args: vec![func(&["$a"], 9)], lo: 0 };
    let (blocked, arg) = inspect_call_for_ng_call(&call).expect("a request");
    assert!(!blocked);
    assert!(matches!(arg, Expr::Fn(_)));
    let call2 = CallExpr { callee: Callee::Expr(Box::new(ident("ngNoInject", 0))), args: vec![func(&["$a"], 11)], lo: 0 };
    assert!(inspect_call_for_ng_call(&call2).expect("a request").0);
    let two = CallExpr { callee: Callee::Expr(Box::new(ident("ngInject", 0))), args: vec![func(&[], 9), func(&[], 20)], lo: 0 };
    assert!(inspect_call_for_ng_call(&two).is_none());
}

#[test]
fn class_requests_and_constructor_params() {
    let ctor = Constructor {
        params: vec![Some("$http".to_string()), None, Some("$q".to_string())],
        body: Some(vec![directive("ngInject")]),
        lo: 20,
        comments: vec![],
    };
    let class = Class { members: vec![ClassMember::Other, ClassMember::Constructor(ctor)], lo: 0, comments: vec![] };
    assert_eq!(extract_class_constructor_params(&class), strs(&["$http", "$q"]));
    assert_eq!(check_class_for_ng_directive(&class), NgInjectResult::Inject);
    let bare = Class { members: vec![], lo: 0, comments: vec![] };
    assert!(extract_class_constructor_params(&bare).is_empty());
    assert_eq!(check_class_for_ng_directive(&bare), NgInjectResult::NoDirective);
}

#[test]
fn parameter_helpers() {
    let params = vec![Some("$a".to_string()), None, Some("$b".to_string())];
    assert_eq!(extract_params(&params), strs(&["$a", "$b"]));
    assert!(is_fn_or_arrow(&func(&[], 0)));
    assert!(is_fn_or_arrow(&Expr::Arrow(arrow(&[], vec![], 0))));
    assert!(!is_fn_or_arrow(&ident("f", 0)));
    assert!(is_fn_with_args(&func(&["$a"], 0)));
    assert!(!is_fn_with_args(&func(&[], 0)));
    assert_eq!(get_fn_params(&func(&["$x", "$y"], 0)), Some(strs(&["$x", "$y"])));
    assert_eq!(get_fn_params(&ident("f", 0)), None);
}

#[test]
fn annotated_arrays() {
    let good = Expr::Array(ArrayLit { elems: vec![Some(string("$a", 1)), Some(func(&["$a"], 7))], lo: 0 });
    assert!(is_annotated_array(&good));
    let not_fn = Expr::Array(ArrayLit { elems: vec![Some(string("$a", 1)), Some(ident("f", 7))], lo: 0 });
    assert!(!is_annotated_array(&not_fn));
    let not_str = Expr::Array(ArrayLit { elems: vec![Some(ident("a", 1)), Some(func(&[], 7))], lo: 0 });
    assert!(!is_annotated_array(&not_str));
    let hole = Expr::Array(ArrayLit { elems: vec![None, Some(func(&[], 7))], lo: 0 });
    assert!(!is_annotated_array(&hole));
    assert!(!is_annotated_array(&Expr::Array(ArrayLit { elems: vec![], lo: 0 })));
    let only_fn = Expr::Array(ArrayLit { elems: vec![Some(func(&[], 1))], lo: 0 });
    assert!(is_annotated_array(&only_fn));
    let arr = ArrayLit { elems: vec![Some(string("$a", 1)), Some(string("b", 3)), Some(func(&["$a", "b"], 7))], lo: 0 };
    assert_eq!(extract_annotated_array_params(&arr), strs(&["$a", "b"]));
}

#[test]
fn string_literal_helpers() {
    assert!(is_string_lit(&string("x", 0)));
    assert!(!is_string_lit(&ident("x", 0)));
    assert_eq!(get_str_val_lossy(&string("abc", 0)), Some("abc".to_string()));
    let bad = Expr::Str(StrLit { value: None, lossy: "a\u{FFFD}".to_string(), lo: 0 });
    assert_eq!(get_str_val_lossy(&bad), Some("a\u{FFFD}".to_string()));
    assert_eq!(get_str_val_lossy(&ident("x", 0)), None);
    match make_str_lit("$scope") {
        Expr::Str(s) => {
            assert_eq!(s.value.as_deref(), Some("$scope"));
            assert_eq!(s.lo, 0);
        },
        _ => panic!("not a string"),
    }
    let id = make_ident("foo");
    assert_eq!((id.name.as_str(), id.lo), ("foo", 0));
}

#[test]
fn property_lookup() {
    let props = vec![
        kv("template", string("t", 10)),
        PropOrSpread::Method(MethodProp {
            key: PropName::Ident("link".to_string()),
            key_lo: 20,
            key_comments: vec![],
            function: function(&["s"], vec![], 20, &[]),
        }),
        PropOrSpread::KeyValue(KeyValueProp {
            key: PropName::Str(Some("controller".to_string())),
            key_lo: 40,
            key_comments: vec![],
            value: Box::new(func(&["$scope"], 55)),
        }),
    ];
    assert!(matches!(match_prop_in_object("controller", &props), Some(Expr::Fn(_))));
    assert!(match_prop_in_object("link", &props).is_none());
    assert!(has_prop("link", &props));
    assert!(has_prop("template", &props));
    assert!(!has_prop("resolve", &props));
    let resolve = Expr::Object(swc_plugin_ng_annotate::ast::ObjectLit {
        props: vec![kv("a", func(&["$q"], 5)), PropOrSpread::Other, kv("b", ident("svc", 30))],
        lo: 0,
    });
    let outer = vec![kv("resolve", resolve)];
    let values = match_resolve_values(&outer);
    assert_eq!(values.len(), 2);
    assert!(matches!(values[0], Expr::Fn(_)));
    assert!(matches!(values[1], Expr::Ident(_)));
    assert!(match_resolve_values(&props).is_empty());
}

#[test]
fn annotation_strings_use_renames() {
    let m = renames(&[("$a", "$aRenamed"), ("$b", "$bRenamed")]);
    assert_eq!(build_annotation_strings(&strs(&["$a", "$c", "$b"]), &m), strs(&["$aRenamed", "$c", "$bRenamed"]));
    assert_eq!(build_annotation_strings(&strs(&["$a"]), &no_renames()), strs(&["$a"]));
}

#[test]
fn wrap_then_unwrap_gives_the_function_back() {
    let m = renames(&[("$http", "$h")]);
    let wrapped = wrap_in_annotation_array(func(&["$scope", "$http"], 30), &strs(&["$scope", "$http"]), &m);
    assert!(is_annotated_array(&wrapped));
    assert_eq!(str_elems(&wrapped), strs(&["$scope", "$h"]));
    let arr = match wrapped {
        Expr::Array(a) => a,
        _ => panic!("not an array"),
    };
    match unwrap_annotation_array(arr) {
        Some(Expr::Fn(f)) => assert_eq!(f.function.lo, 30),
        _ => panic!("function expected"),
    }
    assert!(unwrap_annotation_array(ArrayLit { elems: vec![], lo: 0 }).is_none());
}

#[test]
fn restringing_keeps_the_function() {
    let mut arr = ArrayLit { elems: vec![Some(string("old", 1)), Some(func(&["$x", "$y"], 12))], lo: 4 };
    replace_annotation_array_strings(&mut arr, &strs(&["$x", "$y"]), &no_renames());
    assert_eq!(arr.lo, 4);
    assert_eq!(arr.elems.len(), 3);
    assert_eq!(str_elems(&Expr::Array(ArrayLit { elems: vec![arr.elems[0].take(), arr.elems[1].take()], lo: 0 })), strs(&["$x", "$y"]));
    assert!(matches!(&arr.elems[2], Some(Expr::Fn(f)) if f.function.lo == 12));
    let mut empty = ArrayLit { elems: vec![], lo: 0 };
    replace_annotation_array_strings(&mut empty, &strs(&["$x"]), &no_renames());
    assert!(empty.elems.is_empty());
}

#[test]
fn apply_edit_each_kind() {
    let wrapped = apply_edit(func(&["$a"], 9), &ExprEdit::Wrap(strs(&["$a"]))).expect("wrap applies");
    assert_eq!(str_elems(&wrapped), strs(&["$a"]));
    let back = apply_edit(wrapped, &ExprEdit::Unwrap).expect("unwrap applies");
    assert!(matches!(back, Expr::Fn(ref f) if f.function.lo == 9));
    let arr = Expr::Array(ArrayLit { elems: vec![Some(string("$z", 1)), Some(func(&["$a"], 9))], lo: 0 });
    let re = apply_edit(arr, &ExprEdit::Restring(strs(&["$a"]))).expect("restring applies");
    assert_eq!(str_elems(&re), strs(&["$a"]));
    assert!(apply_edit(func(&["$a"], 9), &ExprEdit::Unwrap).is_none());
    assert!(apply_edit(Expr::Array(ArrayLit { elems: vec![], lo: 0 }), &ExprEdit::Restring(vec![])).is_none());
}

#[test]
fn member_names_and_inject_statements() {
    let chain = Expr::Member(MemberExpr {
        obj: Box::new(ident("app", 0)),
        prop: MemberProp::Ident("Ctrl".to_string()),
        lo: 0,
    });
    assert_eq!(reconstruct_member_name(&chain), Some("app.Ctrl".to_string()));
    let computed = Expr::Member(MemberExpr { obj: Box::new(ident("app", 0)), prop: MemberProp::Private, lo: 0 });
    assert_eq!(reconstruct_member_name(&computed), None);

    let s = inject_stmt(ident("Ctrl", 0), MemberProp::Ident("$inject".to_string()), true);
    assert!(is_inject_stmt(&s, "Ctrl"));
    assert!(!is_inject_stmt(&s, "Other"));
    let comp = inject_stmt(ident("Ctrl", 0), MemberProp::Computed(Box::new(string("$inject", 5))), true);
    assert!(is_inject_stmt(&comp, "Ctrl"));
    let not_plain = inject_stmt(ident("Ctrl", 0), MemberProp::Ident("$inject".to_string()), false);
    assert!(!is_inject_stmt(&not_plain, "Ctrl"));
    let dotted = inject_stmt(chain, MemberProp::Ident("$inject".to_string()), true);
    assert!(is_inject_stmt(&dotted, "app.Ctrl"));
    assert!(!is_inject_stmt(&Stmt { kind: StmtKind::Other, lo: 0 }, "Ctrl"));
}

#[test]
fn made_inject_statement_is_recognised() {
    let m = renames(&[("$b", "$bb")]);
    let s = make_inject_stmt("Ctrl", None, &strs(&["$a", "$b"]), &m);
    assert!(is_inject_stmt(&s, "Ctrl"));
    match &s.kind {
        StmtKind::Expr(Expr::Assign(a)) => {
            assert!(a.is_plain);
            assert_eq!(str_elems(&a.right), strs(&["$a", "$bb"]));
        },
        _ => panic!("assignment expected"),
    }
    let with_ident = make_inject_stmt("Svc", Some(Ident { name: "Svc".to_string(), lo: 77 }), &strs(&["$q"]), &m);
    match &with_ident.kind {
        StmtKind::Expr(Expr::Assign(a)) => match &a.left {
            AssignTarget::Member(mem) => assert!(matches!(&*mem.obj, Expr::Ident(i) if i.lo == 77)),
            _ => panic!("member expected"),
        },
        _ => panic!("assignment expected"),
    }
}

#[test]
fn static_inject_on_classes() {
    let prop = make_static_inject_prop(&strs(&["$http"]), &renames(&[("$http", "$h")]));
    match &prop {
        ClassMember::Prop(p) => {
            assert!(p.is_static);
            assert!(matches!(&p.key, PropName::Ident(k) if k == "$inject"));
            assert_eq!(str_elems(p.value.as_ref().expect("value")), strs(&["$h"]));
        },
        _ => panic!("class property expected"),
    }
    let other_static = ClassMember::Prop(ClassProp { is_static: true, key: PropName::Ident("x".to_string()), value: None });
    let mut class = Class { members: vec![other_static, ClassMember::Other, prop], lo: 0, comments: vec![] };
    assert!(class_has_static_inject(&class));
    remove_static_inject_from_class(&mut class);
    assert!(!class_has_static_inject(&class));
    assert_eq!(class.members.len(), 2);
    assert!(matches!(&class.members[0], ClassMember::Prop(p) if p.is_static));
}

#[test]
fn method_annotation_round_trip() {
    let method = MethodProp {
        key: PropName::Ident("resolveIt".to_string()),
        key_lo: 3,
        key_comments: vec![],
        function: function(&["$q"], vec![], 3, &[]),
    };
    let annotated = method_to_annotated_kv(method, &strs(&["$q"]), &no_renames());
    let kvp = match annotated {
        PropOrSpread::KeyValue(k) => k,
        _ => panic!("key-value expected"),
    };
    assert!(matches!(&kvp.key, PropName::Ident(k) if k == "resolveIt"));
    assert!(is_annotated_array(&kvp.value));
    assert_eq!(str_elems(&kvp.value), strs(&["$q"]));
    match unwrap_annotated_method_kv(kvp) {
        Some(PropOrSpread::Method(m)) => {
            assert!(matches!(&m.key, PropName::Ident(k) if k == "resolveIt"));
            assert_eq!(m.function.lo, 3);
        },
        _ => panic!("method expected"),
    }
    let plain = KeyValueProp { key: PropName::Ident("k".to_string()), key_lo: 0, key_comments: vec![], value: Box::new(func(&[], 4)) };
    assert!(unwrap_annotated_method_kv(plain).is_none());
}

#[test]
fn annotated_arrow_value_unwraps_to_the_arrow() {
    let arrow = Expr::Arrow(ArrowExpr {
        params: vec![Some("$q".to_string())],
        body: ArrowBody::Block(vec![]),
        lo: 14,
        comments: vec![],
    });
    let kvp = KeyValueProp {
        key: PropName::Ident("load".to_string()),
        key_lo: 2,
        key_comments: vec![],
        value: Box::new(Expr::Array(ArrayLit { elems: vec![Some(string("$q", 8)), Some(arrow)], lo: 7 })),
    };
    match unwrap_annotated_method_kv(kvp) {
        Some(PropOrSpread::KeyValue(k)) => {
            assert!(matches!(&k.key, PropName::Ident(n) if n == "load"));
            assert_eq!(k.key_lo, 2);
            assert!(matches!(&*k.value, Expr::Arrow(a) if a.lo == 14));
        },
        _ => panic!("key-value with the arrow expected"),
    }
    let other = KeyValueProp {
        key: PropName::Ident("x".to_string()),
        key_lo: 2,
        key_comments: vec![],
        value: Box::new(Expr::Array(ArrayLit { elems: vec![Some(string("$q", 8)), Some(ident("f", 14))], lo: 7 })),
    };
    assert!(matches!(unwrap_annotated_method_kv(other), Some(PropOrSpread::KeyValue(k)) if matches!(&*k.value, Expr::Array(_))));
}

#[test]
fn restring_keeps_the_array_position() {
    let arr = Expr::Array(ArrayLit { elems: vec![Some(string("$z", 1)), Some(func(&["$a"], 9))], lo: 42 });
    match apply_edit(arr, &ExprEdit::Restring(strs(&["$a"]))) {
        Some(Expr::Array(a)) => assert_eq!(a.lo, 42),
        _ => panic!("array expected"),
    }
}

#[test]
fn removing_static_inject_keeps_comments() {
    let prop = make_static_inject_prop(&strs(&["$http"]), &no_renames());
    let mut class = Class { members: vec![prop], lo: 3, comments: strs(&[" @ngInject "]) };
    remove_static_inject_from_class(&mut class);
    assert!(class.members.is_empty());
    assert_eq!(class.comments, strs(&[" @ngInject "]));
    assert_eq!(class.lo, 3);
}

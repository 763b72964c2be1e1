use swc_plugin_ng_annotate::ast::{
    ArrayLit, AssignExpr, AssignTarget, CallExpr, Callee, Expr, FnExpr, Function, Ident, KeyValueProp, MemberExpr,
    MemberProp, ObjectLit, PropName, PropOrSpread, StrLit,
};
use swc_plugin_ng_annotate::matchers::{
    is_re_def, match_call, match_directive_return_object, match_provider_get_assign, match_provider_get_object,
    CallMatchDecision, CHAINED_ADF, CHAINED_REGULAR, CHAINED_ROUTE_PROVIDER, CHAINED_STATE_PROVIDER,
    CHAINED_URL_ROUTER_PROVIDER,
};
use swc_plugin_ng_annotate::regexp::{build_regexp, default_regexp, Pattern};
use swc_plugin_ng_annotate::utils::expr_to_str;

fn ident(name: &str, lo: u32) -> Expr {
    Expr::Ident(Ident { name: name.to_string(), lo })
}

fn string(value: &str, lo: u32) -> Expr {
    Expr::Str(StrLit { value: Some(value.to_string()), lossy: value.to_string(), lo })
}

fn member(obj: Expr, prop: &str, lo: u32) -> Expr {
    Expr::Member(MemberExpr { obj: Box::new(obj), prop: MemberProp::Ident(prop.to_string()), lo })
}

fn method_call(obj: Expr, method: &str, args: Vec<Expr>, lo: u32) -> CallExpr {
    CallExpr { callee: Callee::Expr(Box::new(member(obj, method, lo))), args, lo }
}

fn func(params: &[&str], lo: u32) -> Expr {
    Expr::Fn(FnExpr {
        ident: None,
        function: Function {
            params: params.iter().map(|p| Some(p.to_string())).collect(),
            body: Some(vec![]),
            lo,
            comments: vec![],
        },
    })
}

fn kv(key: &str, value: Expr, key_lo: u32) -> PropOrSpread {
    PropOrSpread::KeyValue(KeyValueProp {
        key: PropName::Ident(key.to_string()),
        key_lo,
        key_comments: vec![],
        value: Box::new(value),
    })
}

fn object(props: Vec<PropOrSpread>, lo: u32) -> Expr {
    Expr::Object(ObjectLit { props, lo })
}

fn empty_array(lo: u32) -> Expr {
    Expr::Array(ArrayLit { elems: vec![], lo })
}

fn default_pattern() -> Pattern {
    default_regexp().expect("default pattern compiles")
}

fn single_target(d: &CallMatchDecision) -> (usize, Option<String>, Option<usize>, Vec<Vec<String>>) {
    assert_eq!(d.targets.len(), 1);
    let t = &d.targets[0];
    assert!(!t.context_dependent);
    let subs = t.sub_targets.iter().map(|s| s.prop_path.clone()).collect();
    (t.arg_index, t.method_name.clone(), t.rename_name_arg_index, subs)
}

fn strs(v: &[&str]) -> Vec<String> {
    v.iter().map(|s| s.to_string()).collect()
}

#[test]
fn angular_module_with_requires_is_a_chain_start() {
    let p = default_pattern();
    let call = method_call(ident("angular", 0), "module", vec![string("app", 15), empty_array(22)], 0);
    let d = match_call(&call, None, &p, false).expect("matched");
    assert_eq!(d.chain_kind, Some(CHAINED_REGULAR));
    let (arg, method, rename, subs) = single_target(&d);
    assert_eq!(arg, 1);
    assert_eq!(method.as_deref(), Some("module"));
    assert_eq!(rename, None);
    assert!(subs.is_empty());
}

#[test]
fn angular_module_getter_has_no_target() {
    let p = default_pattern();
    let call = method_call(ident("angular", 0), "module", vec![string("app", 15)], 0);
    let d = match_call(&call, None, &p, false).expect("matched");
    assert_eq!(d.chain_kind, Some(CHAINED_REGULAR));
    assert!(d.targets.is_empty());
}

#[test]
fn regular_controller_on_module_name() {
    let p = default_pattern();
    let call = method_call(ident("myMod", 0), "controller", vec![string("Ctrl", 17), func(&["$scope"], 25)], 0);
    let d = match_call(&call, None, &p, false).expect("matched");
    assert_eq!(d.chain_kind, Some(CHAINED_REGULAR));
    let (arg, method, rename, subs) = single_target(&d);
    assert_eq!(arg, 1);
    assert_eq!(method.as_deref(), Some("controller"));
    assert_eq!(rename, Some(0));
    assert!(subs.is_empty());
}

#[test]
fn regular_value_only_propagates_chain() {
    let p = default_pattern();
    let call = method_call(ident("myMod", 0), "value", vec![string("v", 12), func(&["a"], 17)], 0);
    let d = match_call(&call, None, &p, false).expect("matched");
    assert_eq!(d.chain_kind, Some(CHAINED_REGULAR));
    assert!(d.targets.is_empty());
}

#[test]
fn regular_config_takes_single_argument() {
    let p = default_pattern();
    let call = method_call(ident("myMod", 0), "config", vec![func(&["$provide"], 13)], 0);
    let d = match_call(&call, None, &p, false).expect("matched");
    let (arg, method, rename, _) = single_target(&d);
    assert_eq!((arg, method.as_deref(), rename), (0, Some("config"), None));
    let call2 = method_call(ident("myMod", 0), "config", vec![func(&["a"], 13), func(&["b"], 30)], 0);
    let d2 = match_call(&call2, None, &p, false).expect("matched");
    assert!(d2.targets.is_empty());
    assert_eq!(d2.chain_kind, Some(CHAINED_REGULAR));
}

#[test]
fn regular_component_looks_into_controller() {
    let p = default_pattern();
    let cfg = object(vec![kv("controller", func(&["$http"], 40), 28)], 26);
    let call = method_call(ident("myMod", 0), "component", vec![string("cmp", 16), cfg], 0);
    let d = match_call(&call, None, &p, false).expect("matched");
    let (arg, method, rename, subs) = single_target(&d);
    assert_eq!((arg, method.as_deref(), rename), (1, Some("component"), Some(0)));
    assert_eq!(subs, vec![strs(&["controller"])]);
}

#[test]
fn regular_needs_string_name() {
    let p = default_pattern();
    let call = method_call(ident("myMod", 0), "service", vec![ident("name", 14), func(&["a"], 20)], 0);
    let d = match_call(&call, None, &p, false).expect("matched");
    assert!(d.targets.is_empty());
    assert_eq!(d.chain_kind, Some(CHAINED_REGULAR));
}

#[test]
fn custom_pattern_restricts_module_names() {
    let p = build_regexp("^myMod").expect("valid");
    let other = method_call(ident("other", 0), "controller", vec![string("C", 17), func(&["$scope"], 22)], 0);
    assert!(match_call(&other, None, &p, false).is_none());
    let mine = method_call(ident("myMod", 0), "controller", vec![string("C", 17), func(&["$scope"], 22)], 0);
    assert!(match_call(&mine, None, &p, false).is_some());
    // Inside a chain the name does not matter.
    let chained = match_call(&other, Some(CHAINED_REGULAR), &p, false).expect("chained");
    assert_eq!(chained.targets.len(), 1);
}

#[test]
fn long_definition_counts_without_pattern_match() {
    let p = build_regexp("^nothing$").expect("valid");
    let inner = method_call(ident("angular", 0), "module", vec![string("app", 15)], 0);
    let call = method_call(Expr::Call(inner), "factory", vec![string("f", 30), func(&["$q"], 35)], 0);
    let d = match_call(&call, None, &p, false).expect("matched");
    let (arg, method, _, _) = single_target(&d);
    assert_eq!((arg, method.as_deref()), (1, Some("factory")));
}

#[test]
fn provide_registers_second_argument() {
    let p = default_pattern();
    let call = method_call(ident("$provide", 0), "service", vec![string("s", 17), func(&["$q"], 22)], 0);
    let d = match_call(&call, None, &p, false).expect("matched");
    assert_eq!(d.chain_kind, None);
    let (arg, method, rename, _) = single_target(&d);
    assert_eq!((arg, method.as_deref(), rename), (1, Some("service"), Some(0)));
}

#[test]
fn injector_invoke_takes_first_argument() {
    let p = default_pattern();
    let call = method_call(ident("$injector", 0), "invoke", vec![func(&["$rootScope"], 17)], 0);
    let d = match_call(&call, None, &p, false).expect("matched");
    assert_eq!(d.chain_kind, None);
    let (arg, method, rename, _) = single_target(&d);
    assert_eq!((arg, method.as_deref(), rename), (0, Some("invoke"), None));
    // Without arguments it falls through to the regular matcher, which only
    // propagates the chain.
    let empty = method_call(ident("$injector", 0), "invoke", vec![], 0);
    let d2 = match_call(&empty, None, &p, false).expect("matched");
    assert!(d2.targets.is_empty());
    assert_eq!(d2.chain_kind, Some(CHAINED_REGULAR));
}

#[test]
fn route_provider_when_with_controller_and_resolve() {
    let p = default_pattern();
    let resolve = object(vec![kv("data", func(&["$http"], 70), 60)], 58);
    let cfg = object(vec![kv("controller", func(&["$scope"], 40), 28), kv("resolve", resolve, 50)], 26);
    let call = method_call(ident("$routeProvider", 0), "when", vec![string("/", 20), cfg], 0);
    let d = match_call(&call, None, &p, false).expect("matched");
    assert_eq!(d.chain_kind, Some(CHAINED_ROUTE_PROVIDER));
    let (arg, method, rename, subs) = single_target(&d);
    assert_eq!((arg, method.as_deref(), rename), (1, Some("when"), None));
    assert_eq!(subs, vec![strs(&["controller"]), strs(&["resolve"])]);
    let other = method_call(ident("$routeProvider", 0), "otherwise", vec![object(vec![], 30)], 0);
    let d2 = match_call(&other, None, &p, false).expect("matched");
    assert!(d2.targets.is_empty());
    assert_eq!(d2.chain_kind, Some(CHAINED_ROUTE_PROVIDER));
}

#[test]
fn state_provider_state_looks_into_seven_properties() {
    let p = default_pattern();
    let cfg = object(vec![kv("controller", func(&["$scope"], 40), 28)], 26);
    let call = method_call(ident("$stateProvider", 0), "state", vec![string("home", 21), cfg], 0);
    let d = match_call(&call, None, &p, false).expect("matched");
    assert_eq!(d.chain_kind, Some(CHAINED_STATE_PROVIDER));
    let (arg, method, _, subs) = single_target(&d);
    assert_eq!((arg, method.as_deref()), (1, Some("state")));
    assert_eq!(
        subs,
        vec![
            strs(&["controller"]),
            strs(&["controllerProvider"]),
            strs(&["templateProvider"]),
            strs(&["onEnter"]),
            strs(&["onExit"]),
            strs(&["resolve"]),
            strs(&["views"]),
        ]
    );
    assert!(d.targets[0].sub_targets.iter().all(|s| s.method_name.as_deref() == Some("state")));
}

#[test]
fn state_provider_decorator_is_not_regular() {
    let p = default_pattern();
    let call = method_call(ident("$stateProvider", 0), "decorator", vec![string("views", 25), func(&["s"], 34)], 0);
    let d = match_call(&call, None, &p, false).expect("matched");
    assert!(d.targets.is_empty());
    assert_eq!(d.chain_kind, Some(CHAINED_STATE_PROVIDER));
}

#[test]
fn url_router_when_takes_last_argument() {
    let p = default_pattern();
    let call = method_call(ident("$urlRouterProvider", 0), "when", vec![string("/a", 24), func(&["$match"], 30)], 0);
    let d = match_call(&call, None, &p, false).expect("matched");
    assert_eq!(d.chain_kind, Some(CHAINED_URL_ROUTER_PROVIDER));
    let (arg, method, _, _) = single_target(&d);
    assert_eq!((arg, method.as_deref()), (1, Some("when")));
}

#[test]
fn http_provider_interceptors_push() {
    let p = default_pattern();
    let obj = member(ident("$httpProvider", 0), "interceptors", 0);
    let call = method_call(obj, "push", vec![func(&["$q"], 35)], 0);
    let d = match_call(&call, None, &p, false).expect("matched");
    assert_eq!(d.chain_kind, None);
    let (arg, method, _, _) = single_target(&d);
    assert_eq!((arg, method.as_deref()), (0, Some("push")));
}

#[test]
fn controller_provider_register() {
    let p = default_pattern();
    let call = method_call(ident("$controllerProvider", 0), "register", vec![string("C", 29), func(&["$scope"], 34)], 0);
    let d = match_call(&call, None, &p, false).expect("matched");
    let (arg, method, rename, _) = single_target(&d);
    assert_eq!((arg, method.as_deref(), rename), (1, Some("register"), Some(0)));
}

#[test]
fn modal_open_needs_controller_or_resolve() {
    let p = default_pattern();
    let cfg = object(vec![kv("controller", func(&["$scope"], 30), 18)], 16);
    let call = method_call(ident("$uibModal", 0), "open", vec![cfg], 0);
    let d = match_call(&call, None, &p, false).expect("matched");
    assert_eq!(d.chain_kind, None);
    let (arg, method, _, subs) = single_target(&d);
    assert_eq!((arg, method.as_deref()), (0, Some("open")));
    assert_eq!(subs, vec![strs(&["controller"])]);
    let plain = method_call(ident("$modal", 0), "open", vec![object(vec![kv("template", string("x", 30), 18)], 16)], 0);
    assert!(match_call(&plain, None, &p, false).is_none());
}

#[test]
fn dashboard_widget_only_when_enabled() {
    let p = default_pattern();
    let cfg = object(vec![kv("controller", func(&["$scope"], 50), 40)], 38);
    let call = method_call(ident("dashboardProvider", 0), "widget", vec![string("w", 30), cfg], 0);
    assert!(match_call(&call, None, &p, false).is_none());
    let d = match_call(&call, None, &p, true).expect("matched");
    assert_eq!(d.chain_kind, Some(CHAINED_ADF));
    let (arg, method, rename, subs) = single_target(&d);
    assert_eq!((arg, method.as_deref(), rename), (1, Some("widget"), Some(0)));
    assert_eq!(
        subs,
        vec![
            strs(&["controller"]),
            strs(&["resolve"]),
            strs(&["edit", "controller"]),
            strs(&["edit", "apply"]),
            strs(&["edit", "resolve"]),
        ]
    );
}

#[test]
fn calls_that_are_not_method_calls_never_match() {
    let p = default_pattern();
    let call = CallExpr { callee: Callee::Expr(Box::new(ident("controller", 0))), args: vec![], lo: 0 };
    assert!(match_call(&call, None, &p, true).is_none());
    let other = CallExpr { callee: Callee::Other, args: vec![], lo: 0 };
    assert!(match_call(&other, Some(CHAINED_REGULAR), &p, true).is_none());
}

#[test]
fn is_re_def_reads_member_chains() {
    let p = build_regexp("^app\\.mod$").expect("valid");
    let e = member(ident("app", 0), "mod", 0);
    assert_eq!(expr_to_str(&e), "app.mod");
    assert!(is_re_def(&e, &p));
    assert!(!is_re_def(&ident("app", 0), &p));
    // An expression that spells nothing is never a module.
    let any = build_regexp(".*").expect("valid");
    assert!(!is_re_def(&Expr::Other(0), &any));
}

#[test]
fn directive_return_object_with_controller() {
    let props = vec![kv("restrict", string("E", 10), 0), kv("controller", func(&["$scope"], 30), 20)];
    let s = match_directive_return_object(&props).expect("controller present");
    assert_eq!(s.prop_path, strs(&["controller"]));
    assert_eq!(s.method_name.as_deref(), Some("directive"));
    assert!(match_directive_return_object(&vec![kv("restrict", string("E", 10), 0)]).is_none());
}

#[test]
fn provider_get_forms() {
    let assign = |obj: Expr, prop: &str| AssignExpr {
        is_plain: true,
        left: AssignTarget::Member(MemberExpr { obj: Box::new(obj), prop: MemberProp::Ident(prop.to_string()), lo: 0 }),
        right: Box::new(func(&["$q"], 12)),
        lo: 0,
    };
    assert!(match_provider_get_assign(&assign(Expr::This(0), "$get")));
    assert!(match_provider_get_assign(&assign(ident("self", 0), "$get")));
    assert!(match_provider_get_assign(&assign(ident("that", 0), "$get")));
    assert!(!match_provider_get_assign(&assign(ident("other", 0), "$get")));
    assert!(!match_provider_get_assign(&assign(Expr::This(0), "get")));
    assert!(match_provider_get_object(&vec![kv("$get", func(&["$q"], 8), 2)]));
    assert!(!match_provider_get_object(&vec![kv("get", func(&["$q"], 8), 2)]));
}

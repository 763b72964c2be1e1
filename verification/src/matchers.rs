//! Recognition of the Angular dependency-injection call patterns.
//!
//! `match_call` looks at a method call `obj.method(args)` and decides which
//! arguments (or which properties of object arguments) are functions whose
//! parameters are injected, and whether the call continues a chain such as
//! `angular.module(..).controller(..).service(..)`.

use vstd::prelude::*;
use vstd::string::*;
use crate::ast::{AssignExpr, AssignTarget, CallExpr, Expr, MemberProp, PropOrSpread};
use crate::regexp::{is_match, regex_matches, Pattern};
use crate::text::str_eq;
use crate::utils::{
    expr_to_str, get_method_call, is_long_def, is_string_lit, match_prop_in_object,
    spec_expr_to_str, spec_is_long_def, spec_method_call, spec_prop_value,
};

verus! {

/// Chain kind of `$routeProvider` calls.
pub const CHAINED_ROUTE_PROVIDER: u8 = 1;

/// Chain kind of `$urlRouterProvider` calls.
pub const CHAINED_URL_ROUTER_PROVIDER: u8 = 2;

/// Chain kind of `$stateProvider` calls.
pub const CHAINED_STATE_PROVIDER: u8 = 3;

/// Chain kind of module method calls such as `.controller(..)`.
pub const CHAINED_REGULAR: u8 = 4;

/// Chain kind of `dashboardProvider` calls.
pub const CHAINED_ADF: u8 = 5;

/// A function-valued property inside an object argument.
pub struct SubTarget {
    /// The path of property names that leads to it, e.g. `["edit", "controller"]`.
    pub prop_path: Vec<String>,
    /// The method name recorded for it.
    pub method_name: Option<String>,
}

/// An argument of a call that holds (or contains) injectable functions.
pub struct TargetInfo {
    /// Which argument.
    pub arg_index: usize,
    /// The method name recorded for it.
    pub method_name: Option<String>,
    /// Which argument holds the registered name, where there is one.
    pub rename_name_arg_index: Option<usize>,
    /// Whether it counts only inside a module chain.
    pub context_dependent: bool,
    /// Properties of an object argument to look into; empty when the
    /// argument itself is the target.
    pub sub_targets: Vec<SubTarget>,
}

/// What a call is: its target arguments and its chain kind.
pub struct CallMatchDecision {
    pub targets: Vec<TargetInfo>,
    pub chain_kind: Option<u8>,
}

/// A sub-target with its strings as character sequences.
pub struct SubTargetView {
    pub prop_path: Seq<Seq<char>>,
    pub method_name: Option<Seq<char>>,
}

/// A target with its strings as character sequences.
pub struct TargetView {
    pub arg_index: usize,
    pub method_name: Option<Seq<char>>,
    pub rename_name_arg_index: Option<usize>,
    pub context_dependent: bool,
    pub sub_targets: Seq<SubTargetView>,
}

/// A decision with its strings as character sequences.
pub struct DecisionView {
    pub targets: Seq<TargetView>,
    pub chain_kind: Option<u8>,
}

/// The text of an optional string.
pub open spec fn opt_view(s: Option<String>) -> Option<Seq<char>> {
    match s {
        Some(t) => Some(t@),
        None => None,
    }
}

impl View for SubTarget {
    type V = SubTargetView;

    open spec fn view(&self) -> SubTargetView {
        SubTargetView {
            prop_path: self.prop_path@.map_values(|s: String| s@),
            method_name: opt_view(self.method_name),
        }
    }
}

impl View for TargetInfo {
    type V = TargetView;

    open spec fn view(&self) -> TargetView {
        TargetView {
            arg_index: self.arg_index,
            method_name: opt_view(self.method_name),
            rename_name_arg_index: self.rename_name_arg_index,
            context_dependent: self.context_dependent,
            sub_targets: self.sub_targets@.map_values(|s: SubTarget| s@),
        }
    }
}

impl View for CallMatchDecision {
    type V = DecisionView;

    open spec fn view(&self) -> DecisionView {
        DecisionView {
            targets: self.targets@.map_values(|t: TargetInfo| t@),
            chain_kind: self.chain_kind,
        }
    }
}

/// The view of an optional decision.
pub open spec fn decision_view(d: Option<CallMatchDecision>) -> Option<DecisionView> {
    match d {
        Some(x) => Some(x@),
        None => None,
    }
}

/// A sub-target reached by `path`.
pub open spec fn sub_at(path: Seq<Seq<char>>, method: Seq<char>) -> SubTargetView {
    SubTargetView { prop_path: path, method_name: Some(method) }
}

/// A context-independent target.
pub open spec fn target(
    arg_index: usize,
    method: Seq<char>,
    rename: Option<usize>,
    subs: Seq<SubTargetView>,
) -> TargetView {
    TargetView {
        arg_index,
        method_name: Some(method),
        rename_name_arg_index: rename,
        context_dependent: false,
        sub_targets: subs,
    }
}

/// A decision with a single target.
pub open spec fn one(t: TargetView, chain: Option<u8>) -> Option<DecisionView> {
    Some(DecisionView { targets: seq![t], chain_kind: chain })
}

/// A decision without targets that continues a chain of kind `kind`.
pub open spec fn chained_only(kind: u8) -> Option<DecisionView> {
    Some(DecisionView { targets: Seq::empty(), chain_kind: Some(kind) })
}

/// `expr` is the identifier `name`.
pub open spec fn is_ident_named(expr: Expr, name: Seq<char>) -> bool {
    expr matches Expr::Ident(id) && id.name@ == name
}

/// The methods of an Angular module whose calls are recognised.
pub open spec fn is_regular_method(m: Seq<char>) -> bool {
    ||| m == "provider"@
    ||| m == "value"@
    ||| m == "constant"@
    ||| m == "bootstrap"@
    ||| m == "config"@
    ||| m == "factory"@
    ||| m == "directive"@
    ||| m == "filter"@
    ||| m == "run"@
    ||| m == "controller"@
    ||| m == "service"@
    ||| m == "animation"@
    ||| m == "invoke"@
    ||| m == "store"@
    ||| m == "decorator"@
    ||| m == "component"@
}

/// The module methods whose arguments are not injected.
pub open spec fn is_non_annotating_method(m: Seq<char>) -> bool {
    m == "value"@ || m == "constant"@ || m == "bootstrap"@
}

/// The dotted name of `expr` is non-empty and matched by `pattern`.
pub open spec fn spec_is_re_def(expr: Expr, pattern: Seq<char>) -> bool {
    spec_expr_to_str(expr).len() > 0 && regex_matches(pattern, spec_expr_to_str(expr))
}

/// `$injector.invoke(fn, ..)`
pub open spec fn spec_match_injector_invoke(obj: Expr, method: Seq<char>, args: Seq<Expr>) -> Option<DecisionView> {
    if method == "invoke"@ && is_ident_named(obj, "$injector"@) && args.len() > 0 {
        one(target(0, "invoke"@, None, Seq::empty()), None)
    } else {
        None
    }
}

/// `$provide.decorator|service|factory|provider(name, fn)`
pub open spec fn spec_match_provide(obj: Expr, method: Seq<char>, args: Seq<Expr>) -> Option<DecisionView> {
    if is_ident_named(obj, "$provide"@)
        && (method == "decorator"@ || method == "service"@ || method == "factory"@ || method == "provider"@)
        && args.len() == 2 {
        one(target(1, method, Some(0), Seq::empty()), None)
    } else {
        None
    }
}

/// Module method calls: `angular.module(..)`, and `.controller(name, fn)`
/// and the like on a module chain, on a name that the regexp matches, or
/// directly on `angular.module(..)`.
pub open spec fn spec_match_regular(
    obj: Expr,
    method: Seq<char>,
    args: Seq<Expr>,
    chain: Option<u8>,
    pattern: Seq<char>,
) -> Option<DecisionView> {
    if is_ident_named(obj, "angular"@) && method == "module"@ {
        if args.len() >= 2 {
            one(target((args.len() - 1) as usize, "module"@, None, Seq::empty()), Some(CHAINED_REGULAR))
        } else {
            chained_only(CHAINED_REGULAR)
        }
    } else if is_ident_named(obj, "$stateProvider"@) && method == "decorator"@ {
        None
    } else if !is_regular_method(method) {
        None
    } else if !(chain == Some(CHAINED_REGULAR) || spec_is_re_def(obj, pattern) || spec_is_long_def(obj)) {
        None
    } else if is_non_annotating_method(method) {
        chained_only(CHAINED_REGULAR)
    } else if method == "config"@ || method == "run"@ {
        if args.len() != 1 {
            chained_only(CHAINED_REGULAR)
        } else {
            one(target(0, method, None, Seq::empty()), Some(CHAINED_REGULAR))
        }
    } else if method == "component"@ {
        if args.len() == 2 && args[1] is Object {
            one(
                target(1, "component"@, Some(0), seq![sub_at(seq!["controller"@], "component"@)]),
                Some(CHAINED_REGULAR),
            )
        } else {
            chained_only(CHAINED_REGULAR)
        }
    } else if args.len() != 2 || !(args[0] is Str) {
        chained_only(CHAINED_REGULAR)
    } else {
        one(target(1, method, Some(0), Seq::empty()), Some(CHAINED_REGULAR))
    }
}

/// The `controller` and `resolve` sub-targets of an object literal that has
/// those properties, in that order.
pub open spec fn controller_resolve_subs(props: Seq<PropOrSpread>, method: Seq<char>) -> Seq<SubTargetView> {
    (if spec_prop_value("controller"@, props) is Some {
        seq![sub_at(seq!["controller"@], method)]
    } else {
        Seq::empty()
    }) + (if spec_prop_value("resolve"@, props) is Some {
        seq![sub_at(seq!["resolve"@], method)]
    } else {
        Seq::empty()
    })
}

/// `$routeProvider.when(path, { controller, resolve })` and its chain.
pub open spec fn spec_match_ng_route(obj: Expr, method: Seq<char>, args: Seq<Expr>, chain: Option<u8>) -> Option<DecisionView> {
    if !(chain == Some(CHAINED_ROUTE_PROVIDER) || is_ident_named(obj, "$routeProvider"@)) {
        None
    } else if method != "when"@ || args.len() != 2 {
        chained_only(CHAINED_ROUTE_PROVIDER)
    } else {
        match args.last() {
            Expr::Object(o) => {
                let subs = controller_resolve_subs(o.props@, "when"@);
                if subs.len() == 0 {
                    chained_only(CHAINED_ROUTE_PROVIDER)
                } else {
                    one(target((args.len() - 1) as usize, "when"@, None, subs), Some(CHAINED_ROUTE_PROVIDER))
                }
            },
            _ => chained_only(CHAINED_ROUTE_PROVIDER),
        }
    }
}

/// `$modal.open({..})`, `$uibModal.open({..})` and `$mdDialog`, `$mdToast`,
/// `$mdBottomSheet` `.show({..})` with a controller or resolve property.
pub open spec fn spec_match_material_modal(obj: Expr, method: Seq<char>, args: Seq<Expr>) -> Option<DecisionView> {
    match obj {
        Expr::Ident(id) => {
            let n = id.name@;
            let modal_open = (n == "$modal"@ || n == "$uibModal"@) && method == "open"@;
            let md_show = (n == "$mdDialog"@ || n == "$mdToast"@ || n == "$mdBottomSheet"@) && method == "show"@;
            if !modal_open && !md_show || args.len() != 1 {
                None
            } else {
                match args[0] {
                    Expr::Object(o) => {
                        let subs = controller_resolve_subs(o.props@, method);
                        if subs.len() == 0 {
                            None
                        } else {
                            one(target(0, method, None, subs), None)
                        }
                    },
                    _ => None,
                }
            }
        },
        _ => None,
    }
}

/// The seven function-valued properties of a ui-router state.
pub open spec fn state_subs() -> Seq<SubTargetView> {
    seq![
        sub_at(seq!["controller"@], "state"@),
        sub_at(seq!["controllerProvider"@], "state"@),
        sub_at(seq!["templateProvider"@], "state"@),
        sub_at(seq!["onEnter"@], "state"@),
        sub_at(seq!["onExit"@], "state"@),
        sub_at(seq!["resolve"@], "state"@),
        sub_at(seq!["views"@], "state"@),
    ]
}

/// `$urlRouterProvider.when(.., fn)`, `$stateProvider.state(name, {..})`,
/// `stateHelperProvider.setNestedState({..})` and their chains.
pub open spec fn spec_match_ng_ui(obj: Expr, method: Seq<char>, args: Seq<Expr>, chain: Option<u8>) -> Option<DecisionView> {
    if chain == Some(CHAINED_URL_ROUTER_PROVIDER) || is_ident_named(obj, "$urlRouterProvider"@) {
        if method == "when"@ && args.len() > 0 {
            one(target((args.len() - 1) as usize, "when"@, None, Seq::empty()), Some(CHAINED_URL_ROUTER_PROVIDER))
        } else {
            chained_only(CHAINED_URL_ROUTER_PROVIDER)
        }
    } else if !(chain == Some(CHAINED_STATE_PROVIDER) || is_ident_named(obj, "$stateProvider"@)
        || is_ident_named(obj, "stateHelperProvider"@)) {
        None
    } else if !(method == "state"@ || method == "setNestedState"@) || args.len() == 0 || args.len() > 2 {
        chained_only(CHAINED_STATE_PROVIDER)
    } else {
        let idx: int = if method == "state"@ { args.len() - 1 } else { 0 };
        if args[idx] is Object {
            one(target(idx as usize, method, None, state_subs()), Some(CHAINED_STATE_PROVIDER))
        } else {
            chained_only(CHAINED_STATE_PROVIDER)
        }
    }
}

/// `$httpProvider.interceptors.push(fn)` and `.responseInterceptors.push(fn)`.
pub open spec fn spec_match_http_provider(obj: Expr, method: Seq<char>, args: Seq<Expr>) -> Option<DecisionView> {
    if method == "push"@ && args.len() > 0 && match obj {
        Expr::Member(m) => (match m.prop {
            MemberProp::Ident(p) => p@ == "interceptors"@ || p@ == "responseInterceptors"@,
            _ => false,
        }) && is_ident_named(*m.obj, "$httpProvider"@),
        _ => false,
    } {
        one(target(0, "push"@, None, Seq::empty()), None)
    } else {
        None
    }
}

/// `$controllerProvider.register(name, fn)`
pub open spec fn spec_match_controller_provider(obj: Expr, method: Seq<char>, args: Seq<Expr>) -> Option<DecisionView> {
    if method == "register"@ && is_ident_named(obj, "$controllerProvider"@) && args.len() == 2 {
        one(target(1, "register"@, Some(0), Seq::empty()), None)
    } else {
        None
    }
}

/// The function-valued properties of an angular-dashboard-framework widget.
pub open spec fn adf_subs() -> Seq<SubTargetView> {
    seq![
        sub_at(seq!["controller"@], "widget"@),
        sub_at(seq!["resolve"@], "widget"@),
        sub_at(seq!["edit"@, "controller"@], "widget"@),
        sub_at(seq!["edit"@, "apply"@], "widget"@),
        sub_at(seq!["edit"@, "resolve"@], "widget"@),
    ]
}

/// `dashboardProvider.widget(name, {..})` and its chain.
pub open spec fn spec_match_adf(obj: Expr, method: Seq<char>, args: Seq<Expr>, chain: Option<u8>) -> Option<DecisionView> {
    if !(chain == Some(CHAINED_ADF) || is_ident_named(obj, "dashboardProvider"@)) {
        None
    } else if method != "widget"@ || args.len() != 2 || !(args[1] is Object) {
        chained_only(CHAINED_ADF)
    } else {
        one(target(1, "widget"@, Some(0), adf_subs()), Some(CHAINED_ADF))
    }
}

/// `a` when it is a decision, else `b`.
pub open spec fn or_else(a: Option<DecisionView>, b: Option<DecisionView>) -> Option<DecisionView> {
    if a is Some { a } else { b }
}

/// The decision for a call: the matchers are tried in a fixed order and the
/// first that recognises the call decides.
pub open spec fn spec_match_call(call: CallExpr, chain: Option<u8>, pattern: Seq<char>, enable_adf: bool) -> Option<DecisionView> {
    match spec_method_call(call) {
        None => None,
        Some((obj, m, args)) => or_else(
            spec_match_injector_invoke(obj, m, args),
            or_else(
                spec_match_provide(obj, m, args),
                or_else(
                    spec_match_regular(obj, m, args, chain, pattern),
                    or_else(
                        spec_match_ng_route(obj, m, args, chain),
                        or_else(
                            spec_match_material_modal(obj, m, args),
                            or_else(
                                spec_match_ng_ui(obj, m, args, chain),
                                or_else(
                                    spec_match_http_provider(obj, m, args),
                                    or_else(
                                        spec_match_controller_provider(obj, m, args),
                                        if enable_adf { spec_match_adf(obj, m, args, chain) } else { None },
                                    ),
                                ),
                            ),
                        ),
                    ),
                ),
            ),
        ),
    }
}


/// A sub-target reached by the one-property path `[p]`.
fn sub1(p: &str, method: &str) -> (r: SubTarget)
    ensures
        r@ == sub_at(seq![p@], method@),
{
    let r = SubTarget { prop_path: vec![p.to_string()], method_name: Some(method.to_string()) };
    assert(r@.prop_path =~= seq![p@]);
    r
}

/// A sub-target reached by the two-property path `[p, q]`.
fn sub2(p: &str, q: &str, method: &str) -> (r: SubTarget)
    ensures
        r@ == sub_at(seq![p@, q@], method@),
{
    let r = SubTarget {
        prop_path: vec![p.to_string(), q.to_string()],
        method_name: Some(method.to_string()),
    };
    assert(r@.prop_path =~= seq![p@, q@]);
    r
}

/// A context-independent target.
fn target_info(arg_index: usize, method: &str, rename: Option<usize>, subs: Vec<SubTarget>) -> (r: TargetInfo)
    ensures
        r@ == target(arg_index, method@, rename, subs@.map_values(|s: SubTarget| s@)),
{
    TargetInfo {
        arg_index,
        method_name: Some(method.to_string()),
        rename_name_arg_index: rename,
        context_dependent: false,
        sub_targets: subs,
    }
}

/// A decision with the single target `t`.
fn single(t: TargetInfo, chain: Option<u8>) -> (r: Option<CallMatchDecision>)
    ensures
        decision_view(r) == one(t@, chain),
{
    let ghost tv = t@;
    let d = CallMatchDecision { targets: vec![t], chain_kind: chain };
    assert(d@.targets =~= seq![tv]);
    Some(d)
}

/// A decision without targets that continues a chain of kind `kind`.
fn chain_only(kind: u8) -> (r: Option<CallMatchDecision>)
    ensures
        decision_view(r) == chained_only(kind),
{
    let d = CallMatchDecision { targets: Vec::new(), chain_kind: Some(kind) };
    assert(d@.targets =~= Seq::<TargetView>::empty());
    Some(d)
}

/// Whether `expr` is the identifier `name`.
fn is_ident_with_name(expr: &Expr, name: &str) -> (r: bool)
    ensures
        r == is_ident_named(*expr, name@),
{
    match expr {
        Expr::Ident(id) => str_eq(id.name.as_str(), name),
        _ => false,
    }
}

/// Whether `m` is one of the recognised module methods.
fn is_regular_method_name(m: &str) -> (r: bool)
    ensures
        r == is_regular_method(m@),
{
    str_eq(m, "provider") || str_eq(m, "value") || str_eq(m, "constant") || str_eq(m, "bootstrap")
        || str_eq(m, "config") || str_eq(m, "factory") || str_eq(m, "directive") || str_eq(m, "filter")
        || str_eq(m, "run") || str_eq(m, "controller") || str_eq(m, "service") || str_eq(m, "animation")
        || str_eq(m, "invoke") || str_eq(m, "store") || str_eq(m, "decorator") || str_eq(m, "component")
}

/// Whether `m` is a module method whose arguments are not injected.
fn is_non_annotating_method_name(m: &str) -> (r: bool)
    ensures
        r == is_non_annotating_method(m@),
{
    str_eq(m, "value") || str_eq(m, "constant") || str_eq(m, "bootstrap")
}

/// Whether the dotted name of `expr` is non-empty and matched by `regexp`.
pub fn is_re_def(expr: &Expr, regexp: &Pattern) -> (r: bool)
    ensures
        r == spec_is_re_def(*expr, regexp.spec_source()),
{
    let s = expr_to_str(expr);
    if s.as_str().unicode_len() == 0 {
        return false;
    }
    is_match(regexp, s.as_str())
}

fn match_injector_invoke(obj: &Expr, method_name: &str, args: &Vec<Expr>) -> (r: Option<CallMatchDecision>)
    ensures
        decision_view(r) == spec_match_injector_invoke(*obj, method_name@, args@),
{
    if !str_eq(method_name, "invoke") {
        return None;
    }
    if !is_ident_with_name(obj, "$injector") {
        return None;
    }
    if args.len() == 0 {
        return None;
    }
    let t = target_info(0, "invoke", None, Vec::new());
    assert(t@.sub_targets =~= Seq::<SubTargetView>::empty());
    single(t, None)
}

fn match_provide(obj: &Expr, method_name: &str, args: &Vec<Expr>) -> (r: Option<CallMatchDecision>)
    ensures
        decision_view(r) == spec_match_provide(*obj, method_name@, args@),
{
    if !is_ident_with_name(obj, "$provide") {
        return None;
    }
    let valid = str_eq(method_name, "decorator") || str_eq(method_name, "service")
        || str_eq(method_name, "factory") || str_eq(method_name, "provider");
    if !valid {
        return None;
    }
    if args.len() != 2 {
        return None;
    }
    let t = target_info(1, method_name, Some(0), Vec::new());
    assert(t@.sub_targets =~= Seq::<SubTargetView>::empty());
    single(t, None)
}

fn match_regular(
    obj: &Expr,
    method_name: &str,
    args: &Vec<Expr>,
    callee_chain_kind: Option<u8>,
    regexp: &Pattern,
) -> (r: Option<CallMatchDecision>)
    ensures
        decision_view(r) == spec_match_regular(*obj, method_name@, args@, callee_chain_kind, regexp.spec_source()),
{
    if is_ident_with_name(obj, "angular") && str_eq(method_name, "module") {
        if args.len() >= 2 {
            let t = target_info(args.len() - 1, "module", None, Vec::new());
            assert(t@.sub_targets =~= Seq::<SubTargetView>::empty());
            return single(t, Some(CHAINED_REGULAR));
        } else {
            return chain_only(CHAINED_REGULAR);
        }
    }
    if is_ident_with_name(obj, "$stateProvider") && str_eq(method_name, "decorator") {
        return None;
    }
    if !is_regular_method_name(method_name) {
        return None;
    }
    let is_chained = match callee_chain_kind {
        Some(k) => k == CHAINED_REGULAR,
        None => false,
    };
    let is_redef = is_re_def(obj, regexp);
    let is_longdef = is_long_def(obj);
    if !is_chained && !is_redef && !is_longdef {
        return None;
    }
    if is_non_annotating_method_name(method_name) {
        return chain_only(CHAINED_REGULAR);
    }
    if str_eq(method_name, "config") || str_eq(method_name, "run") {
        if args.len() != 1 {
            return chain_only(CHAINED_REGULAR);
        }
        let t = target_info(0, method_name, None, Vec::new());
        assert(t@.sub_targets =~= Seq::<SubTargetView>::empty());
        return single(t, Some(CHAINED_REGULAR));
    }
    if str_eq(method_name, "component") {
        if args.len() == 2 {
            match &args[1] {
                Expr::Object(_) => {
                    let subs = vec![sub1("controller", "component")];
                    let ghost sv = subs@.map_values(|s: SubTarget| s@);
                    assert(sv =~= seq![sub_at(seq!["controller"@], "component"@)]);
                    let t = target_info(1, "component", Some(0), subs);
                    return single(t, Some(CHAINED_REGULAR));
                },
                _ => {},
            }
        }
        return chain_only(CHAINED_REGULAR);
    }
    if args.len() != 2 {
        return chain_only(CHAINED_REGULAR);
    }
    if !is_string_lit(&args[0]) {
        return chain_only(CHAINED_REGULAR);
    }
    let t = target_info(1, method_name, Some(0), Vec::new());
    assert(t@.sub_targets =~= Seq::<SubTargetView>::empty());
    single(t, Some(CHAINED_REGULAR))
}

/// The `controller` and `resolve` sub-targets of an object literal.
fn controller_resolve_sub_targets(props: &Vec<PropOrSpread>, method: &str) -> (r: Vec<SubTarget>)
    ensures
        r@.map_values(|s: SubTarget| s@) == controller_resolve_subs(props@, method@),
{
    let mut subs: Vec<SubTarget> = Vec::new();
    let has_controller = match_prop_in_object("controller", props).is_some();
    let has_resolve = match_prop_in_object("resolve", props).is_some();
    if has_controller {
        subs.push(sub1("controller", method));
    }
    let ghost first = subs@.map_values(|s: SubTarget| s@);
    if has_resolve {
        subs.push(sub1("resolve", method));
    }
    assert(subs@.map_values(|s: SubTarget| s@) =~= controller_resolve_subs(props@, method@));
    subs
}

fn match_ng_route(obj: &Expr, method_name: &str, args: &Vec<Expr>, callee_chain_kind: Option<u8>) -> (r: Option<CallMatchDecision>)
    ensures
        decision_view(r) == spec_match_ng_route(*obj, method_name@, args@, callee_chain_kind),
{
    let chained = match callee_chain_kind {
        Some(k) => k == CHAINED_ROUTE_PROVIDER,
        None => false,
    };
    if !(chained || is_ident_with_name(obj, "$routeProvider")) {
        return None;
    }
    if !str_eq(method_name, "when") {
        return chain_only(CHAINED_ROUTE_PROVIDER);
    }
    if args.len() != 2 {
        return chain_only(CHAINED_ROUTE_PROVIDER);
    }
    match &args[args.len() - 1] {
        Expr::Object(o) => {
            let subs = controller_resolve_sub_targets(&o.props, "when");
            if subs.len() == 0 {
                return chain_only(CHAINED_ROUTE_PROVIDER);
            }
            let t = target_info(args.len() - 1, "when", None, subs);
            single(t, Some(CHAINED_ROUTE_PROVIDER))
        },
        _ => chain_only(CHAINED_ROUTE_PROVIDER),
    }
}

fn match_material_modal(obj: &Expr, method_name: &str, args: &Vec<Expr>) -> (r: Option<CallMatchDecision>)
    ensures
        decision_view(r) == spec_match_material_modal(*obj, method_name@, args@),
{
    let name: &str = match obj {
        Expr::Ident(id) => id.name.as_str(),
        _ => {
            return None;
        },
    };
    let modal_open = (str_eq(name, "$modal") || str_eq(name, "$uibModal")) && str_eq(method_name, "open");
    let md_show = (str_eq(name, "$mdDialog") || str_eq(name, "$mdToast") || str_eq(name, "$mdBottomSheet"))
        && str_eq(method_name, "show");
    if !modal_open && !md_show {
        return None;
    }
    if args.len() != 1 {
        return None;
    }
    match &args[0] {
        Expr::Object(o) => {
            let subs = controller_resolve_sub_targets(&o.props, method_name);
            if subs.len() == 0 {
                return None;
            }
            let t = target_info(0, method_name, None, subs);
            single(t, None)
        },
        _ => None,
    }
}

/// The seven sub-targets of a ui-router state.
fn state_sub_targets() -> (r: Vec<SubTarget>)
    ensures
        r@.map_values(|s: SubTarget| s@) == state_subs(),
{
    let r = vec![
        sub1("controller", "state"),
        sub1("controllerProvider", "state"),
        sub1("templateProvider", "state"),
        sub1("onEnter", "state"),
        sub1("onExit", "state"),
        sub1("resolve", "state"),
        sub1("views", "state"),
    ];
    assert(r@.map_values(|s: SubTarget| s@) =~= state_subs());
    r
}

fn match_ng_ui(obj: &Expr, method_name: &str, args: &Vec<Expr>, callee_chain_kind: Option<u8>) -> (r: Option<CallMatchDecision>)
    ensures
        decision_view(r) == spec_match_ng_ui(*obj, method_name@, args@, callee_chain_kind),
{
    let url_chained = match callee_chain_kind {
        Some(k) => k == CHAINED_URL_ROUTER_PROVIDER,
        None => false,
    };
    if url_chained || is_ident_with_name(obj, "$urlRouterProvider") {
        if str_eq(method_name, "when") && args.len() > 0 {
            let t = target_info(args.len() - 1, "when", None, Vec::new());
            assert(t@.sub_targets =~= Seq::<SubTargetView>::empty());
            return single(t, Some(CHAINED_URL_ROUTER_PROVIDER));
        }
        return chain_only(CHAINED_URL_ROUTER_PROVIDER);
    }
    let state_chained = match callee_chain_kind {
        Some(k) => k == CHAINED_STATE_PROVIDER,
        None => false,
    };
    if !(state_chained || is_ident_with_name(obj, "$stateProvider")
        || is_ident_with_name(obj, "stateHelperProvider")) {
        return None;
    }
    let is_state = str_eq(method_name, "state");
    if !(is_state || str_eq(method_name, "setNestedState")) {
        return chain_only(CHAINED_STATE_PROVIDER);
    }
    if args.len() == 0 || args.len() > 2 {
        return chain_only(CHAINED_STATE_PROVIDER);
    }
    let config_idx: usize = if is_state { args.len() - 1 } else { 0 };
    match &args[config_idx] {
        Expr::Object(_) => {
            let t = target_info(config_idx, method_name, None, state_sub_targets());
            single(t, Some(CHAINED_STATE_PROVIDER))
        },
        _ => chain_only(CHAINED_STATE_PROVIDER),
    }
}

fn match_http_provider(obj: &Expr, method_name: &str, args: &Vec<Expr>) -> (r: Option<CallMatchDecision>)
    ensures
        decision_view(r) == spec_match_http_provider(*obj, method_name@, args@),
{
    if !str_eq(method_name, "push") {
        return None;
    }
    match obj {
        Expr::Member(member) => {
            match &member.prop {
                MemberProp::Ident(prop) => {
                    if !(str_eq(prop.as_str(), "interceptors") || str_eq(prop.as_str(), "responseInterceptors")) {
                        return None;
                    }
                },
                _ => {
                    return None;
                },
            }
            if !is_ident_with_name(&member.obj, "$httpProvider") {
                return None;
            }
        },
        _ => {
            return None;
        },
    }
    if args.len() == 0 {
        return None;
    }
    let t = target_info(0, "push", None, Vec::new());
    assert(t@.sub_targets =~= Seq::<SubTargetView>::empty());
    single(t, None)
}

fn match_controller_provider(obj: &Expr, method_name: &str, args: &Vec<Expr>) -> (r: Option<CallMatchDecision>)
    ensures
        decision_view(r) == spec_match_controller_provider(*obj, method_name@, args@),
{
    if !str_eq(method_name, "register") {
        return None;
    }
    if !is_ident_with_name(obj, "$controllerProvider") {
        return None;
    }
    if args.len() != 2 {
        return None;
    }
    let t = target_info(1, "register", Some(0), Vec::new());
    assert(t@.sub_targets =~= Seq::<SubTargetView>::empty());
    single(t, None)
}

/// The five sub-targets of a dashboard widget.
fn adf_sub_targets() -> (r: Vec<SubTarget>)
    ensures
        r@.map_values(|s: SubTarget| s@) == adf_subs(),
{
    let r = vec![
        sub1("controller", "widget"),
        sub1("resolve", "widget"),
        sub2("edit", "controller", "widget"),
        sub2("edit", "apply", "widget"),
        sub2("edit", "resolve", "widget"),
    ];
    assert(r@.map_values(|s: SubTarget| s@) =~= adf_subs());
    r
}

fn match_adf(obj: &Expr, method_name: &str, args: &Vec<Expr>, callee_chain_kind: Option<u8>) -> (r: Option<CallMatchDecision>)
    ensures
        decision_view(r) == spec_match_adf(*obj, method_name@, args@, callee_chain_kind),
{
    let chained = match callee_chain_kind {
        Some(k) => k == CHAINED_ADF,
        None => false,
    };
    if !(chained || is_ident_with_name(obj, "dashboardProvider")) {
        return None;
    }
    if !str_eq(method_name, "widget") {
        return chain_only(CHAINED_ADF);
    }
    if args.len() != 2 {
        return chain_only(CHAINED_ADF);
    }
    match &args[1] {
        Expr::Object(_) => {
            let t = target_info(1, "widget", Some(0), adf_sub_targets());
            single(t, Some(CHAINED_ADF))
        },
        _ => chain_only(CHAINED_ADF),
    }
}

/// Tries the matchers in order on `obj.method(args)`; the first that
/// recognises the call decides. The dashboard matcher runs only when
/// `enable_adf` is set.
pub fn match_call(
    call: &CallExpr,
    callee_chain_kind: Option<u8>,
    regexp: &Pattern,
    enable_adf: bool,
) -> (r: Option<CallMatchDecision>)
    ensures
        decision_view(r) == spec_match_call(*call, callee_chain_kind, regexp.spec_source(), enable_adf),
{
    let (obj, method, args) = match get_method_call(call) {
        Some(t) => t,
        None => {
            return None;
        },
    };
    let method_name: &str = method.as_str();
    let d = match_injector_invoke(obj, method_name, args);
    if d.is_some() {
        return d;
    }
    let d = match_provide(obj, method_name, args);
    if d.is_some() {
        return d;
    }
    let d = match_regular(obj, method_name, args, callee_chain_kind, regexp);
    if d.is_some() {
        return d;
    }
    let d = match_ng_route(obj, method_name, args, callee_chain_kind);
    if d.is_some() {
        return d;
    }
    let d = match_material_modal(obj, method_name, args);
    if d.is_some() {
        return d;
    }
    let d = match_ng_ui(obj, method_name, args, callee_chain_kind);
    if d.is_some() {
        return d;
    }
    let d = match_http_provider(obj, method_name, args);
    if d.is_some() {
        return d;
    }
    let d = match_controller_provider(obj, method_name, args);
    if d.is_some() {
        return d;
    }
    if enable_adf {
        let d = match_adf(obj, method_name, args, callee_chain_kind);
        if d.is_some() {
            return d;
        }
    }
    None
}

/// The sub-target of `return { controller: fn }` inside a directive.
pub open spec fn spec_directive_return_object(props: Seq<PropOrSpread>) -> Option<SubTargetView> {
    if spec_prop_value("controller"@, props) is Some {
        Some(sub_at(seq!["controller"@], "directive"@))
    } else {
        None
    }
}

/// Matches `return { controller: fn }` inside a directive.
pub fn match_directive_return_object(props: &Vec<PropOrSpread>) -> (r: Option<SubTarget>)
    ensures
        match r {
            Some(s) => spec_directive_return_object(props@) == Some(s@),
            None => spec_directive_return_object(props@) is None,
        },
{
    if match_prop_in_object("controller", props).is_some() {
        return Some(sub1("controller", "directive"));
    }
    None
}

/// `this.$get = ..`, `self.$get = ..` or `that.$get = ..`.
pub open spec fn spec_provider_get_assign(expr: AssignExpr) -> bool {
    match expr.left {
        AssignTarget::Member(m) => match m.prop {
            MemberProp::Ident(p) => p@ == "$get"@ && match *m.obj {
                Expr::Ident(id) => id.name@ == "self"@ || id.name@ == "that"@,
                Expr::This(_) => true,
                _ => false,
            },
            _ => false,
        },
        AssignTarget::Other => false,
    }
}

/// Matches `(this|self|that).$get = fn`.
pub fn match_provider_get_assign(expr: &AssignExpr) -> (r: bool)
    ensures
        r == spec_provider_get_assign(*expr),
{
    if let AssignTarget::Member(member) = &expr.left {
        if let MemberProp::Ident(prop) = &member.prop {
            if str_eq(prop.as_str(), "$get") {
                if let Expr::Ident(id) = &*member.obj {
                    return str_eq(id.name.as_str(), "self") || str_eq(id.name.as_str(), "that");
                }
                if let Expr::This(_) = &*member.obj {
                    return true;
                }
            }
        }
    }
    false
}

/// Matches an object literal `{ $get: fn }`.
pub fn match_provider_get_object(props: &Vec<PropOrSpread>) -> (r: bool)
    ensures
        r == (spec_prop_value("$get"@, props@) is Some),
{
    match_prop_in_object("$get", props).is_some()
}

} // verus!

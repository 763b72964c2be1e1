//! Queries on the syntax model: parameter names, annotated arrays, object
//! properties, method calls and the dotted name of an expression.

use vstd::prelude::*;
use vstd::string::*;
use crate::ast::{Callee, CallExpr, Expr, Ident, MemberProp, PropName, PropOrSpread, StrLit};
use crate::text::str_eq;

verus! {

/// The texts of a list of strings.
pub open spec fn str_views(v: Seq<String>) -> Seq<Seq<char>> {
    v.map_values(|s: String| s@)
}

/// The names of the parameters that are plain identifiers, in order.
pub open spec fn param_names(ps: Seq<Option<String>>) -> Seq<Seq<char>>
    decreases ps.len(),
{
    if ps.len() == 0 {
        Seq::empty()
    } else {
        let rest = param_names(ps.drop_last());
        match ps.last() {
            Some(n) => rest.push(n@),
            None => rest,
        }
    }
}

/// The names of the parameters of a function or arrow function.
pub open spec fn spec_fn_params(e: Expr) -> Option<Seq<Seq<char>>> {
    match e {
        Expr::Fn(f) => Some(param_names(f.function.params@)),
        Expr::Arrow(a) => Some(param_names(a.params@)),
        _ => None,
    }
}

/// A function or arrow function.
pub open spec fn spec_is_fn_or_arrow(e: Expr) -> bool {
    e is Fn || e is Arrow
}

/// A function or arrow function with at least one parameter.
pub open spec fn spec_is_fn_with_args(e: Expr) -> bool {
    match e {
        Expr::Fn(f) => f.function.params@.len() > 0,
        Expr::Arrow(a) => a.params@.len() > 0,
        _ => false,
    }
}

/// An element of an array literal that is a string literal.
pub open spec fn is_str_elem(e: Option<Expr>) -> bool {
    match e {
        Some(x) => x is Str,
        None => false,
    }
}

/// `["a", "b", ..., function(a, b) {..}]`: a non-empty array whose last
/// element is a function or arrow function and whose other elements are all
/// string literals.
pub open spec fn spec_is_annotated_array(e: Expr) -> bool {
    match e {
        Expr::Array(a) => {
            &&& a.elems@.len() > 0
            &&& match a.elems@.last() {
                Some(l) => spec_is_fn_or_arrow(l),
                None => false,
            }
            &&& forall|i: int| 0 <= i < a.elems@.len() - 1 ==> #[trigger] is_str_elem(a.elems@[i])
        },
        _ => false,
    }
}

/// The dotted name of an expression: `a.b.c` for identifiers joined by
/// non-computed member accesses, looking through calls to their callee;
/// empty for anything else.
pub open spec fn spec_expr_to_str(e: Expr) -> Seq<char>
    decreases e,
{
    match e {
        Expr::Ident(id) => id.name@,
        Expr::Member(m) => {
            let obj = spec_expr_to_str(*m.obj);
            match m.prop {
                MemberProp::Ident(p) => obj + seq!['.'] + p@,
                _ => obj,
            }
        },
        Expr::Call(c) => match c.callee {
            Callee::Expr(inner) => spec_expr_to_str(*inner),
            Callee::Other => Seq::empty(),
        },
        _ => Seq::empty(),
    }
}

/// A property key that names `name`: an identifier or a valid string.
pub open spec fn key_is(key: PropName, name: Seq<char>) -> bool {
    match key {
        PropName::Ident(id) => id@ == name,
        PropName::Str(Some(s)) => s@ == name,
        _ => false,
    }
}

/// The value of the first key-value property named `name`.
pub open spec fn spec_prop_value(name: Seq<char>, props: Seq<PropOrSpread>) -> Option<Expr>
    decreases props.len(),
{
    if props.len() == 0 {
        None
    } else {
        match props[0] {
            PropOrSpread::KeyValue(kv) => if key_is(kv.key, name) {
                Some(*kv.value)
            } else {
                spec_prop_value(name, props.drop_first())
            },
            _ => spec_prop_value(name, props.drop_first()),
        }
    }
}

/// Some key-value or method property is named `name`.
pub open spec fn spec_has_prop(name: Seq<char>, props: Seq<PropOrSpread>) -> bool {
    exists|i: int| 0 <= i < props.len() && #[trigger] prop_named(props[i], name)
}

/// A key-value or method property named `name`.
pub open spec fn prop_named(p: PropOrSpread, name: Seq<char>) -> bool {
    match p {
        PropOrSpread::KeyValue(kv) => key_is(kv.key, name),
        PropOrSpread::Method(m) => key_is(m.key, name),
        PropOrSpread::Other => false,
    }
}

/// The values of the key-value properties, in order.
pub open spec fn kv_values(props: Seq<PropOrSpread>) -> Seq<Expr>
    decreases props.len(),
{
    if props.len() == 0 {
        Seq::empty()
    } else {
        let rest = kv_values(props.drop_last());
        match props.last() {
            PropOrSpread::KeyValue(kv) => rest.push(*kv.value),
            _ => rest,
        }
    }
}

/// The values under the `resolve` property, when that is an object literal.
pub open spec fn spec_resolve_values(props: Seq<PropOrSpread>) -> Seq<Expr> {
    match spec_prop_value("resolve"@, props) {
        Some(Expr::Object(o)) => kv_values(o.props@),
        _ => Seq::empty(),
    }
}

/// `obj.method(args)` with a non-computed method name.
pub open spec fn spec_method_call(call: CallExpr) -> Option<(Expr, Seq<char>, Seq<Expr>)> {
    match call.callee {
        Callee::Expr(e) => match *e {
            Expr::Member(m) => match m.prop {
                MemberProp::Ident(name) => Some((*m.obj, name@, call.args@)),
                _ => None,
            },
            _ => None,
        },
        Callee::Other => None,
    }
}

/// `angular.module(..)`
pub open spec fn spec_is_angular_module_call(call: CallExpr) -> bool {
    match spec_method_call(call) {
        Some((obj, method, _)) => (obj matches Expr::Ident(id) && id.name@ == "angular"@)
            && method == "module"@,
        None => false,
    }
}

/// A call `angular.module(..)`.
pub open spec fn spec_is_long_def(e: Expr) -> bool {
    match e {
        Expr::Call(c) => spec_is_angular_module_call(c),
        _ => false,
    }
}

/// The names of the parameters that are plain identifiers.
pub fn extract_params(params: &Vec<Option<String>>) -> (r: Vec<String>)
    ensures
        str_views(r@) == param_names(params@),
{
    let mut r: Vec<String> = Vec::new();
    let mut i: usize = 0;
    while i < params.len()
        invariant
            i <= params@.len(),
            str_views(r@) =~= param_names(params@.take(i as int)),
        decreases params@.len() - i,
    {
        assert(params@.take(i + 1).drop_last() =~= params@.take(i as int));
        match &params[i] {
            Some(n) => {
                r.push(n.clone());
            },
            None => {},
        }
        i = i + 1;
    }
    assert(params@.take(params@.len() as int) =~= params@);
    r
}

/// The names of the parameters of an arrow function that are plain
/// identifiers.
pub fn extract_pats_params(params: &Vec<Option<String>>) -> (r: Vec<String>)
    ensures
        str_views(r@) == param_names(params@),
{
    extract_params(params)
}

/// Whether `expr` is a function or arrow function.
pub fn is_fn_or_arrow(expr: &Expr) -> (r: bool)
    ensures
        r == spec_is_fn_or_arrow(*expr),
{
    match expr {
        Expr::Fn(_) | Expr::Arrow(_) => true,
        _ => false,
    }
}

/// Whether `expr` is a function or arrow function with a parameter.
pub fn is_fn_with_args(expr: &Expr) -> (r: bool)
    ensures
        r == spec_is_fn_with_args(*expr),
{
    match expr {
        Expr::Fn(f) => f.function.params.len() > 0,
        Expr::Arrow(a) => a.params.len() > 0,
        _ => false,
    }
}

/// The parameter names of a function or arrow function.
pub fn get_fn_params(expr: &Expr) -> (r: Option<Vec<String>>)
    ensures
        match r {
            Some(v) => spec_fn_params(*expr) == Some(str_views(v@)),
            None => spec_fn_params(*expr) is None,
        },
{
    match expr {
        Expr::Fn(f) => Some(extract_params(&f.function.params)),
        Expr::Arrow(a) => Some(extract_pats_params(&a.params)),
        _ => None,
    }
}

/// Whether `expr` is an annotated array `["a", ..., fn]`.
#[verifier::loop_isolation(false)]
pub fn is_annotated_array(expr: &Expr) -> (r: bool)
    ensures
        r == spec_is_annotated_array(*expr),
{
    match expr {
        Expr::Array(arr) => {
            let count = arr.elems.len();
            if count == 0 {
                return false;
            }
            let last_ok = match &arr.elems[count - 1] {
                Some(e) => is_fn_or_arrow(e),
                None => false,
            };
            if !last_ok {
                return false;
            }
            let mut i: usize = 0;
            while i < count - 1
                invariant
                    count == arr.elems@.len(),
                    count > 0,
                    i <= count - 1,
                    forall|j: int| 0 <= j < i ==> #[trigger] is_str_elem(arr.elems@[j]),
                decreases count - 1 - i,
            {
                let ok = match &arr.elems[i] {
                    Some(Expr::Str(_)) => true,
                    _ => false,
                };
                if !ok {
                    assert(!is_str_elem(arr.elems@[i as int]));
                    return false;
                }
                i = i + 1;
            }
            true
        },
        _ => false,
    }
}

/// Whether `expr` is a string literal.
pub fn is_string_lit(expr: &Expr) -> (r: bool)
    ensures
        r == (*expr is Str),
{
    match expr {
        Expr::Str(_) => true,
        _ => false,
    }
}

/// The text of a string literal, with invalid parts replaced.
pub fn get_str_val_lossy(expr: &Expr) -> (r: Option<String>)
    ensures
        match *expr {
            Expr::Str(s) => r matches Some(t) && t@ == s.lossy@,
            _ => r is None,
        },
{
    match expr {
        Expr::Str(s) => Some(s.lossy.clone()),
        _ => None,
    }
}

/// The dotted name of an expression, as matched against the module regexp.
pub fn expr_to_str(expr: &Expr) -> (r: String)
    ensures
        r@ == spec_expr_to_str(*expr),
    decreases expr,
{
    match expr {
        Expr::Ident(id) => id.name.clone(),
        Expr::Member(m) => {
            let mut obj = expr_to_str(&m.obj);
            match &m.prop {
                MemberProp::Ident(p) => {
                    proof {
                        reveal_strlit(".");
                    }
                    obj.append(".");
                    obj.append(p.as_str());
                    obj
                },
                _ => obj,
            }
        },
        Expr::Call(c) => match &c.callee {
            Callee::Expr(e) => expr_to_str(e),
            Callee::Other => String::new(),
        },
        _ => String::new(),
    }
}

/// A synthesized string literal.
pub fn make_str_lit(value: &str) -> (r: Expr)
    ensures
        r matches Expr::Str(s) && s.value matches Some(v) && v@ == value@ && s.lossy@ == value@
            && s.lo == 0,
{
    Expr::Str(StrLit { value: Some(value.to_string()), lossy: value.to_string(), lo: 0 })
}

/// A synthesized identifier.
pub fn make_ident(name: &str) -> (r: Ident)
    ensures
        r.name@ == name@,
        r.lo == 0,
{
    Ident { name: name.to_string(), lo: 0 }
}

/// The name of a synthesized property or member name.
pub fn make_ident_name(name: &str) -> (r: String)
    ensures
        r@ == name@,
{
    name.to_string()
}

/// Whether a property key names `name`.
pub fn prop_key_is(key: &PropName, name: &str) -> (r: bool)
    ensures
        r == key_is(*key, name@),
{
    match key {
        PropName::Ident(id) => str_eq(id.as_str(), name),
        PropName::Str(Some(s)) => str_eq(s.as_str(), name),
        _ => false,
    }
}

/// The value of the first key-value property named `name`.
pub fn match_prop_in_object<'a>(name: &str, props: &'a Vec<PropOrSpread>) -> (r: Option<&'a Expr>)
    ensures
        match r {
            Some(e) => spec_prop_value(name@, props@) == Some(*e),
            None => spec_prop_value(name@, props@) is None,
        },
{
    let mut i: usize = 0;
    assert(props@.skip(0) =~= props@);
    while i < props.len()
        invariant
            i <= props@.len(),
            spec_prop_value(name@, props@) == spec_prop_value(name@, props@.skip(i as int)),
        decreases props@.len() - i,
    {
        assert(props@.skip(i as int).drop_first() =~= props@.skip(i + 1));
        assert(props@.skip(i as int)[0] == props@[i as int]);
        match &props[i] {
            PropOrSpread::KeyValue(kv) => {
                if prop_key_is(&kv.key, name) {
                    return Some(&*kv.value);
                }
            },
            _ => {},
        }
        i = i + 1;
    }
    None
}

/// Whether some key-value or method property is named `name`.
pub fn has_prop(name: &str, props: &Vec<PropOrSpread>) -> (r: bool)
    ensures
        r == spec_has_prop(name@, props@),
{
    let mut i: usize = 0;
    while i < props.len()
        invariant
            i <= props@.len(),
            forall|j: int| 0 <= j < i ==> !#[trigger] prop_named(props@[j], name@),
        decreases props@.len() - i,
    {
        let hit = match &props[i] {
            PropOrSpread::KeyValue(kv) => prop_key_is(&kv.key, name),
            PropOrSpread::Method(m) => prop_key_is(&m.key, name),
            PropOrSpread::Other => false,
        };
        if hit {
            assert(prop_named(props@[i as int], name@));
            return true;
        }
        i = i + 1;
    }
    false
}

/// The values of the key-value properties of the `resolve` object.
pub fn match_resolve_values<'a>(props: &'a Vec<PropOrSpread>) -> (r: Vec<&'a Expr>)
    ensures
        r@.map_values(|e: &Expr| *e) == spec_resolve_values(props@),
{
    let mut result: Vec<&'a Expr> = Vec::new();
    match match_prop_in_object("resolve", props) {
        Some(Expr::Object(obj)) => {
            let mut i: usize = 0;
            while i < obj.props.len()
                invariant
                    i <= obj.props@.len(),
                    result@.map_values(|e: &Expr| *e) =~= kv_values(obj.props@.take(i as int)),
                decreases obj.props@.len() - i,
            {
                assert(obj.props@.take(i + 1).drop_last() =~= obj.props@.take(i as int));
                match &obj.props[i] {
                    PropOrSpread::KeyValue(kv) => {
                        result.push(&*kv.value);
                    },
                    _ => {},
                }
                i = i + 1;
            }
            assert(obj.props@.take(obj.props@.len() as int) =~= obj.props@);
        },
        _ => {},
    }
    result
}

/// `obj.method(args)` split into its object, method name and arguments.
pub fn get_method_call<'a>(call: &'a CallExpr) -> (r: Option<(&'a Expr, &'a String, &'a Vec<Expr>)>)
    ensures
        match r {
            Some((o, m, a)) => spec_method_call(*call) == Some((*o, m@, a@)),
            None => spec_method_call(*call) is None,
        },
{
    match &call.callee {
        Callee::Expr(e) => match &**e {
            Expr::Member(m) => match &m.prop {
                MemberProp::Ident(name) => Some((&*m.obj, name, &call.args)),
                _ => None,
            },
            _ => None,
        },
        Callee::Other => None,
    }
}

/// Whether `call` is `angular.module(..)`.
pub fn is_angular_module_call(call: &CallExpr) -> (r: bool)
    ensures
        r == spec_is_angular_module_call(*call),
{
    match get_method_call(call) {
        Some((obj, method, _)) => match obj {
            Expr::Ident(id) => str_eq(id.name.as_str(), "angular") && str_eq(method.as_str(), "module"),
            _ => false,
        },
        None => false,
    }
}

/// Whether `expr` is a call `angular.module(..)`.
pub fn is_long_def(expr: &Expr) -> (r: bool)
    ensures
        r == spec_is_long_def(*expr),
{
    match expr {
        Expr::Call(c) => is_angular_module_call(c),
        _ => false,
    }
}

} // verus!

//! The rewrites the annotator makes: annotation arrays, `$inject`
//! statements, static `$inject` class properties, and the names that go into
//! them.

use vstd::prelude::*;
use crate::ast::{
    ArrayLit, AssignExpr, AssignTarget, Class, ClassMember, ClassProp, Expr, FnExpr, Ident, KeyValueProp,
    MemberExpr, MemberProp, MethodProp, PropName, PropOrSpread, Stmt, StmtKind,
};
use crate::config::RenameMap;
use crate::text::str_eq;
use crate::utils::{make_ident, make_ident_name, make_str_lit, spec_is_annotated_array, spec_is_fn_or_arrow, str_views};

verus! {

/// A parameter name after renaming.
pub open spec fn spec_renamed(name: Seq<char>, m: Map<Seq<char>, Seq<char>>) -> Seq<char> {
    if m.contains_key(name) {
        m[name]
    } else {
        name
    }
}

/// The strings of an annotation: each parameter name, renamed.
pub open spec fn spec_annotation_strings(params: Seq<Seq<char>>, m: Map<Seq<char>, Seq<char>>) -> Seq<Seq<char>> {
    params.map_values(|p: Seq<char>| spec_renamed(p, m))
}

/// An array element that is a valid string literal with text `t`.
pub open spec fn is_str_lit_of(e: Option<Expr>, t: Seq<char>) -> bool {
    match e {
        Some(Expr::Str(s)) => match s.value {
            Some(v) => v@ == t,
            None => false,
        },
        _ => false,
    }
}

/// `r` is the array `["s0", "s1", ..., inner]`.
pub open spec fn is_annotation_of(r: Expr, inner: Expr, strings: Seq<Seq<char>>) -> bool {
    match r {
        Expr::Array(a) => {
            &&& a.elems@.len() == strings.len() + 1
            &&& forall|i: int| 0 <= i < strings.len() ==> #[trigger] is_str_lit_of(a.elems@[i], strings[i])
            &&& a.elems@.last() == Some(inner)
        },
        _ => false,
    }
}

/// An edit of an expression that the annotator decides on.
pub enum ExprEdit {
    /// `f` becomes `["s0", .., f]`.
    Wrap(Vec<String>),
    /// `[.., f]` becomes `f`.
    Unwrap,
    /// `[.., f]` becomes `["s0", .., f]`.
    Restring(Vec<String>),
}

/// The last element of an array literal, when it is present.
pub open spec fn spec_last_elem(e: Expr) -> Option<Expr> {
    match e {
        Expr::Array(a) => if a.elems@.len() > 0 {
            a.elems@.last()
        } else {
            None
        },
        _ => None,
    }
}

/// Whether `edit` can be made on `before`: unwrapping and restringing need
/// an array whose last element is present.
pub open spec fn edit_applies(before: Expr, edit: ExprEdit) -> bool {
    match edit {
        ExprEdit::Wrap(_) => true,
        _ => spec_last_elem(before) is Some,
    }
}

/// `after` is what `edit` makes of `before`.
pub open spec fn edit_result(before: Expr, edit: ExprEdit, after: Expr) -> bool {
    match edit {
        ExprEdit::Wrap(s) => is_annotation_of(after, before, str_views(s@)),
        ExprEdit::Unwrap => spec_last_elem(before) == Some(after),
        ExprEdit::Restring(s) => match spec_last_elem(before) {
            Some(f) => is_annotation_of(after, f, str_views(s@)),
            None => false,
        },
    }
}

/// A copy of a list of strings.
pub fn clone_strings(v: &Vec<String>) -> (r: Vec<String>)
    ensures
        r@ == v@,
{
    let mut r: Vec<String> = Vec::new();
    let mut i: usize = 0;
    while i < v.len()
        invariant
            i <= v@.len(),
            r@ =~= v@.take(i as int),
        decreases v@.len() - i,
    {
        r.push(v[i].clone());
        i = i + 1;
    }
    assert(v@.take(v@.len() as int) =~= v@);
    r
}

/// A parameter name after renaming.
pub fn renamed(name: &str, rename_map: &RenameMap) -> (r: String)
    ensures
        r@ == spec_renamed(name@, rename_map@),
{
    match rename_map.get(name) {
        Some(v) => v.clone(),
        None => name.to_string(),
    }
}

/// The strings of an annotation for `params`.
pub fn build_annotation_strings(params: &Vec<String>, rename_map: &RenameMap) -> (r: Vec<String>)
    ensures
        str_views(r@) == spec_annotation_strings(str_views(params@), rename_map@),
{
    let mut r: Vec<String> = Vec::new();
    let mut i: usize = 0;
    while i < params.len()
        invariant
            i <= params@.len(),
            str_views(r@) =~= spec_annotation_strings(str_views(params@), rename_map@).take(i as int),
        decreases params@.len() - i,
    {
        let s = renamed(params[i].as_str(), rename_map);
        let ghost before = r@;
        r.push(s);
        proof {
            assert(r@ =~= before.push(s));
            assert(str_views(r@) =~= str_views(before).push(s@));
            assert(spec_annotation_strings(str_views(params@), rename_map@).take(i + 1)
                =~= spec_annotation_strings(str_views(params@), rename_map@).take(i as int).push(s@));
        }
        i = i + 1;
    }
    r
}

/// The array `["s0", .., inner]`.
pub fn annotation_array(inner: Expr, strings: &Vec<String>) -> (r: Expr)
    ensures
        is_annotation_of(r, inner, str_views(strings@)),
        r.spec_lo() == 0,
{
    let mut elems: Vec<Option<Expr>> = Vec::new();
    let mut i: usize = 0;
    while i < strings.len()
        invariant
            i <= strings@.len(),
            elems@.len() == i,
            forall|j: int| 0 <= j < i ==> #[trigger] is_str_lit_of(elems@[j], strings@[j]@),
        decreases strings@.len() - i,
    {
        elems.push(Some(make_str_lit(strings[i].as_str())));
        i = i + 1;
    }
    let ghost before = elems@;
    elems.push(Some(inner));
    assert forall|j: int| 0 <= j < strings@.len() implies #[trigger] is_str_lit_of(
        elems@[j],
        str_views(strings@)[j],
    ) by {
        assert(elems@[j] == before[j]);
    }
    Expr::Array(ArrayLit { elems, lo: 0 })
}

/// Wraps a function into an annotation array of its renamed parameters.
pub fn wrap_in_annotation_array(fn_expr: Expr, params: &Vec<String>, rename_map: &RenameMap) -> (r: Expr)
    ensures
        is_annotation_of(r, fn_expr, spec_annotation_strings(str_views(params@), rename_map@)),
{
    let strings = build_annotation_strings(params, rename_map);
    annotation_array(fn_expr, &strings)
}

/// The last element of an annotation array: the function.
pub fn unwrap_annotation_array(array: ArrayLit) -> (r: Option<Expr>)
    ensures
        r == (if array.elems@.len() > 0 { array.elems@.last() } else { None }),
{
    let mut elems = array.elems;
    match elems.pop() {
        Some(last) => last,
        None => None,
    }
}

/// Replaces the strings of an annotation array by the renamed parameters,
/// keeping its last element; an empty array stays as it is.
pub fn replace_annotation_array_strings(array: &mut ArrayLit, params: &Vec<String>, rename_map: &RenameMap)
    ensures
        final(array).lo == old(array).lo,
        old(array).elems@.len() == 0 ==> final(array).elems@ == old(array).elems@,
        old(array).elems@.len() > 0 ==> {
            let strings = spec_annotation_strings(str_views(params@), rename_map@);
            &&& final(array).elems@.len() == strings.len() + 1
            &&& forall|i: int| 0 <= i < strings.len() ==> #[trigger] is_str_lit_of(final(array).elems@[i], strings[i])
            &&& final(array).elems@.last() == old(array).elems@.last()
        },
{
    if array.elems.len() == 0 {
        return;
    }
    let last = array.elems.pop();
    let strings = build_annotation_strings(params, rename_map);
    let mut elems: Vec<Option<Expr>> = Vec::new();
    let mut i: usize = 0;
    while i < strings.len()
        invariant
            i <= strings@.len(),
            elems@.len() == i,
            forall|j: int| 0 <= j < i ==> #[trigger] is_str_lit_of(elems@[j], strings@[j]@),
        decreases strings@.len() - i,
    {
        elems.push(Some(make_str_lit(strings[i].as_str())));
        i = i + 1;
    }
    let ghost before = elems@;
    match last {
        Some(l) => elems.push(l),
        None => {},
    }
    assert forall|j: int| 0 <= j < strings@.len() implies #[trigger] is_str_lit_of(
        elems@[j],
        str_views(strings@)[j],
    ) by {
        assert(elems@[j] == before[j]);
    }
    array.elems = elems;
}

/// Makes `edit` on `before`; absent when the edit does not apply.
pub fn apply_edit(before: Expr, edit: &ExprEdit) -> (r: Option<Expr>)
    ensures
        r is Some <==> edit_applies(before, *edit),
        r matches Some(after) ==> edit_result(before, *edit, after),
        edit is Restring ==> (r matches Some(after) ==> after.spec_lo() == before.spec_lo()),
{
    match edit {
        ExprEdit::Wrap(s) => Some(annotation_array(before, s)),
        ExprEdit::Unwrap => match before {
            Expr::Array(a) => unwrap_annotation_array(a),
            _ => None,
        },
        ExprEdit::Restring(s) => match before {
            Expr::Array(a) => {
                let lo = a.lo;
                match unwrap_annotation_array(a) {
                    Some(f) => match annotation_array(f, s) {
                        Expr::Array(mut b) => {
                            b.lo = lo;
                            Some(Expr::Array(b))
                        },
                        other => Some(other),
                    },
                    None => None,
                }
            },
            _ => None,
        },
    }
}

/// The name that a member chain `a.b.c` spells, for identifiers joined by
/// non-computed accesses.
pub open spec fn spec_member_name(e: Expr) -> Option<Seq<char>>
    decreases e,
{
    match e {
        Expr::Ident(id) => Some(id.name@),
        Expr::Member(m) => match spec_member_name(*m.obj) {
            Some(o) => match m.prop {
                MemberProp::Ident(p) => Some(o + seq!['.'] + p@),
                _ => None,
            },
            None => None,
        },
        _ => None,
    }
}

/// The name that a member chain `a.b.c` spells.
pub fn reconstruct_member_name(expr: &Expr) -> (r: Option<String>)
    ensures
        match r {
            Some(s) => spec_member_name(*expr) == Some(s@),
            None => spec_member_name(*expr) is None,
        },
    decreases expr,
{
    match expr {
        Expr::Ident(id) => Some(id.name.clone()),
        Expr::Member(m) => {
            match reconstruct_member_name(&m.obj) {
                Some(mut o) => match &m.prop {
                    MemberProp::Ident(p) => {
                        proof {
                            reveal_strlit(".");
                        }
                        o.append(".");
                        o.append(p.as_str());
                        Some(o)
                    },
                    _ => None,
                },
                None => None,
            }
        },
        _ => None,
    }
}

/// Whether the object of a member expression spells `name`.
pub fn member_obj_matches_name(obj_expr: &Expr, name: &str) -> (r: bool)
    ensures
        r == (spec_member_name(*obj_expr) == Some(name@)),
{
    match reconstruct_member_name(obj_expr) {
        Some(s) => str_eq(s.as_str(), name),
        None => false,
    }
}

/// A `$inject` property: `.$inject` or `["$inject"]`.
pub open spec fn is_inject_prop(p: MemberProp) -> bool {
    match p {
        MemberProp::Ident(n) => n@ == "$inject"@,
        MemberProp::Computed(e) => match *e {
            Expr::Str(s) => match s.value {
                Some(v) => v@ == "$inject"@,
                None => false,
            },
            _ => false,
        },
        MemberProp::Private => false,
    }
}

/// `name.$inject = ..;` with a plain `=`.
pub open spec fn spec_is_inject_stmt(stmt: Stmt, name: Seq<char>) -> bool {
    match stmt.kind {
        StmtKind::Expr(Expr::Assign(a)) => a.is_plain && match a.left {
            AssignTarget::Member(m) => is_inject_prop(m.prop) && spec_member_name(*m.obj) == Some(name),
            AssignTarget::Other => false,
        },
        _ => false,
    }
}

/// Whether `stmt` is `name.$inject = ..;`.
pub fn is_inject_stmt(stmt: &Stmt, name: &str) -> (r: bool)
    ensures
        r == spec_is_inject_stmt(*stmt, name@),
{
    if let StmtKind::Expr(Expr::Assign(assign)) = &stmt.kind {
        if !assign.is_plain {
            return false;
        }
        if let AssignTarget::Member(member) = &assign.left {
            let prop_is_inject = match &member.prop {
                MemberProp::Ident(prop) => str_eq(prop.as_str(), "$inject"),
                MemberProp::Computed(computed) => match &**computed {
                    Expr::Str(s) => match &s.value {
                        Some(v) => str_eq(v.as_str(), "$inject"),
                        None => false,
                    },
                    _ => false,
                },
                MemberProp::Private => false,
            };
            if !prop_is_inject {
                return false;
            }
            return member_obj_matches_name(&member.obj, name);
        }
    }
    false
}

/// `r` is the array `["s0", "s1", ..]` of string literals.
pub open spec fn is_string_array(r: Expr, strings: Seq<Seq<char>>) -> bool {
    match r {
        Expr::Array(a) => {
            &&& a.elems@.len() == strings.len()
            &&& forall|i: int| 0 <= i < strings.len() ==> #[trigger] is_str_lit_of(a.elems@[i], strings[i])
        },
        _ => false,
    }
}

/// The array `["s0", "s1", ..]`.
pub fn string_array(strings: &Vec<String>) -> (r: Expr)
    ensures
        is_string_array(r, str_views(strings@)),
        r.spec_lo() == 0,
{
    let mut elems: Vec<Option<Expr>> = Vec::new();
    let mut i: usize = 0;
    while i < strings.len()
        invariant
            i <= strings@.len(),
            elems@.len() == i,
            forall|j: int| 0 <= j < i ==> #[trigger] is_str_lit_of(elems@[j], strings@[j]@),
        decreases strings@.len() - i,
    {
        elems.push(Some(make_str_lit(strings[i].as_str())));
        i = i + 1;
    }
    assert forall|j: int| 0 <= j < strings@.len() implies #[trigger] is_str_lit_of(
        elems@[j],
        str_views(strings@)[j],
    ) by {}
    Expr::Array(ArrayLit { elems, lo: 0 })
}

/// The object and the right side of `obj.$inject = right;`.
pub open spec fn inject_stmt_parts(s: Stmt) -> Option<(Expr, Expr)> {
    match s.kind {
        StmtKind::Expr(Expr::Assign(a)) => if a.is_plain {
            match a.left {
                AssignTarget::Member(m) => if m.prop is Ident && is_inject_prop(m.prop) {
                    Some((*m.obj, *a.right))
                } else {
                    None
                },
                AssignTarget::Other => None,
            }
        } else {
            None
        },
        _ => None,
    }
}

/// `name.$inject = ["s0", ..];`, on `ident` when given (so that later
/// renamings of the binding reach it), else on a new identifier `name`.
pub fn make_inject_stmt(name: &str, ident: Option<Ident>, params: &Vec<String>, rename_map: &RenameMap) -> (r: Stmt)
    ensures
        r.lo == 0,
        inject_stmt_parts(r) matches Some((obj, right)) && is_string_array(
            right,
            spec_annotation_strings(str_views(params@), rename_map@),
        ) && match ident {
            Some(i) => obj == Expr::Ident(i),
            None => obj matches Expr::Ident(id) && id.name@ == name@ && id.lo == 0,
        },
{
    let obj_ident = match ident {
        Some(i) => i,
        None => make_ident(name),
    };
    let strings = build_annotation_strings(params, rename_map);
    let array_expr = string_array(&strings);
    let prop_name = make_ident_name("$inject");
    proof {
        reveal_strlit("$inject");
    }
    let lhs = MemberExpr { obj: Box::new(Expr::Ident(obj_ident)), prop: MemberProp::Ident(prop_name), lo: 0 };
    Stmt {
        kind: StmtKind::Expr(Expr::Assign(AssignExpr {
            is_plain: true,
            left: AssignTarget::Member(lhs),
            right: Box::new(array_expr),
            lo: 0,
        })),
        lo: 0,
    }
}

/// A static class property named `$inject`.
pub open spec fn spec_is_static_inject_member(m: ClassMember) -> bool {
    match m {
        ClassMember::Prop(p) => p.is_static && match p.key {
            PropName::Ident(k) => k@ == "$inject"@,
            _ => false,
        },
        _ => false,
    }
}

/// The class has a `static $inject = ..` property.
pub open spec fn spec_class_has_static_inject(class: Class) -> bool {
    exists|i: int| 0 <= i < class.members@.len() && #[trigger] spec_is_static_inject_member(class.members@[i])
}

/// Whether a class member is `static $inject = ..`.
pub fn is_static_inject_member(member: &ClassMember) -> (r: bool)
    ensures
        r == spec_is_static_inject_member(*member),
{
    match member {
        ClassMember::Prop(p) => p.is_static && match &p.key {
            PropName::Ident(k) => str_eq(k.as_str(), "$inject"),
            _ => false,
        },
        _ => false,
    }
}

/// Whether the class has a `static $inject = ..` property.
pub fn class_has_static_inject(class: &Class) -> (r: bool)
    ensures
        r == spec_class_has_static_inject(*class),
{
    let mut i: usize = 0;
    while i < class.members.len()
        invariant
            i <= class.members@.len(),
            forall|j: int| 0 <= j < i ==> !#[trigger] spec_is_static_inject_member(class.members@[j]),
        decreases class.members@.len() - i,
    {
        if is_static_inject_member(&class.members[i]) {
            return true;
        }
        i = i + 1;
    }
    false
}

/// The members that are kept when static `$inject` properties are dropped.
pub open spec fn kept_members(s: Seq<ClassMember>) -> Seq<ClassMember>
    decreases s.len(),
{
    if s.len() == 0 {
        Seq::empty()
    } else if spec_is_static_inject_member(s.last()) {
        kept_members(s.drop_last())
    } else {
        kept_members(s.drop_last()).push(s.last())
    }
}

/// No member of `kept_members(s)` is a static `$inject` property.
pub proof fn lemma_kept_members_clean(s: Seq<ClassMember>)
    ensures
        forall|i: int| 0 <= i < kept_members(s).len() ==> !#[trigger] spec_is_static_inject_member(kept_members(s)[i]),
    decreases s.len(),
{
    if s.len() > 0 {
        lemma_kept_members_clean(s.drop_last());
        let prev = kept_members(s.drop_last());
        assert forall|i: int| 0 <= i < kept_members(s).len() implies !#[trigger] spec_is_static_inject_member(
            kept_members(s)[i],
        ) by {
            if i < prev.len() {
                assert(kept_members(s)[i] == prev[i]);
            }
        }
    }
}

/// Drops every `static $inject = ..` property; the other members keep their
/// order.
pub fn remove_static_inject_from_class(class: &mut Class)
    ensures
        final(class).members@ == kept_members(old(class).members@),
        final(class).lo == old(class).lo,
        final(class).comments == old(class).comments,
        !spec_class_has_static_inject(*final(class)),
{
    let mut rest: Vec<ClassMember> = Vec::new();
    std::mem::swap(&mut rest, &mut class.members);
    let ghost all = rest@;
    let total = rest.len();
    let mut kept: Vec<ClassMember> = Vec::new();
    let mut k: usize = 0;
    while rest.len() > 0
        invariant
            all.len() == total,
            k <= all.len(),
            rest@ == all.skip(k as int),
            kept@ == kept_members(all.take(k as int)),
        decreases rest@.len(),
    {
        let m = rest.remove(0);
        assert(all.take(k + 1).drop_last() =~= all.take(k as int));
        assert(all.take(k + 1).last() == m);
        if !is_static_inject_member(&m) {
            kept.push(m);
        }
        assert(rest@ =~= all.skip(k + 1));
        k = k + 1;
    }
    assert(all.take(k as int) =~= all);
    class.members = kept;
    proof {
        lemma_kept_members_clean(all);
    }
}

/// `static $inject = ["s0", ..]`.
pub fn make_static_inject_prop(params: &Vec<String>, rename_map: &RenameMap) -> (r: ClassMember)
    ensures
        spec_is_static_inject_member(r),
        r matches ClassMember::Prop(p) && p.value matches Some(v) && is_string_array(
            *v,
            spec_annotation_strings(str_views(params@), rename_map@),
        ),
{
    let strings = build_annotation_strings(params, rename_map);
    static_inject_member(&strings)
}

/// `static $inject = ["s0", ..]` with the given strings.
pub fn static_inject_member(strings: &Vec<String>) -> (r: ClassMember)
    ensures
        spec_is_static_inject_member(r),
        r matches ClassMember::Prop(p) && p.value matches Some(v) && is_string_array(*v, str_views(strings@)),
{
    let key = make_ident_name("$inject");
    proof {
        reveal_strlit("$inject");
    }
    ClassMember::Prop(ClassProp { is_static: true, key: PropName::Ident(key), value: Some(Box::new(string_array(strings))) })
}

/// `{ key(a, b) {..} }` becomes `{ key: ["a", "b", function(a, b) {..}] }`.
pub fn method_to_annotated_kv(method: MethodProp, params: &Vec<String>, rename_map: &RenameMap) -> (r: PropOrSpread)
    ensures
        r matches PropOrSpread::KeyValue(kv) && kv.key == method.key && kv.key_lo == method.key_lo
            && is_annotation_of(
                *kv.value,
                Expr::Fn(FnExpr { ident: None, function: method.function }),
                spec_annotation_strings(str_views(params@), rename_map@),
            ),
{
    let fn_expr = Expr::Fn(FnExpr { ident: None, function: method.function });
    let annotated = wrap_in_annotation_array(fn_expr, params, rename_map);
    PropOrSpread::KeyValue(KeyValueProp {
        key: method.key,
        key_lo: method.key_lo,
        key_comments: method.key_comments,
        value: Box::new(annotated),
    })
}

/// Undoes `method_to_annotated_kv`: a key-value property whose value is an
/// array ending in a function expression becomes a method again; one ending
/// in an arrow function gets the arrow function as its value; one ending in
/// another expression stays as it is; anything else gives nothing.
pub fn unwrap_annotated_method_kv(kv: KeyValueProp) -> (r: Option<PropOrSpread>)
    ensures
        match *kv.value {
            Expr::Array(a) => if a.elems@.len() > 0 && a.elems@.last() is Some {
                match a.elems@.last()->0 {
                    Expr::Fn(f) => r matches Some(PropOrSpread::Method(m)) && m.key == kv.key
                        && m.key_lo == kv.key_lo && m.function == f.function,
                    Expr::Arrow(ar) => r matches Some(PropOrSpread::KeyValue(k)) && k.key == kv.key
                        && k.key_lo == kv.key_lo && *k.value == Expr::Arrow(ar),
                    _ => r matches Some(PropOrSpread::KeyValue(k)) && k.key == kv.key && k.key_lo == kv.key_lo
                        && *k.value == *kv.value,
                }
            } else {
                r is None
            },
            _ => r is None,
        },
{
    let KeyValueProp { key, key_lo, key_comments, value } = kv;
    match *value {
        Expr::Array(mut arr) => {
            let n = arr.elems.len();
            if n == 0 {
                return None;
            }
            let unwraps = match &arr.elems[n - 1] {
                Some(Expr::Fn(_)) => true,
                Some(Expr::Arrow(_)) => true,
                Some(_) => false,
                None => {
                    return None;
                },
            };
            if unwraps {
                match arr.elems.pop() {
                    Some(Some(Expr::Fn(fe))) => Some(
                        PropOrSpread::Method(MethodProp { key, key_lo, key_comments, function: fe.function }),
                    ),
                    Some(Some(Expr::Arrow(ar))) => Some(
                        PropOrSpread::KeyValue(KeyValueProp { key, key_lo, key_comments, value: Box::new(Expr::Arrow(ar)) }),
                    ),
                    _ => None,
                }
            } else {
                Some(PropOrSpread::KeyValue(KeyValueProp { key, key_lo, key_comments, value: Box::new(Expr::Array(arr)) }))
            }
        },
        _ => None,
    }
}

} // verus!

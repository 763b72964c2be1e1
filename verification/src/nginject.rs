//! Explicit annotation requests: `"ngInject"` / `"ngNoInject"` directive
//! prologues, `ngInject(expr)` / `ngNoInject(expr)` calls and
//! `@ngInject` / `@ngNoInject` comments.

use vstd::prelude::*;
use crate::ast::{ArrowBody, ArrowExpr, BodyStmt, CallExpr, Callee, Expr, FnDecl, FnExpr, Function, VarDeclarator};
use crate::text::{seq_contains, str_contains, str_eq};

verus! {

/// What an explicit request asks for.
#[derive(Debug, Clone, Copy, PartialEq, Eq, Structural)]
pub enum NgInjectResult {
    /// Annotate.
    Inject,
    /// Do not annotate.
    NoInject,
    /// No request.
    NoDirective,
}

/// The text of a prologue string; a literal that is not valid UTF-8 reads
/// as the empty string.
pub open spec fn directive_text(v: Option<String>) -> Seq<char> {
    match v {
        Some(t) => t@,
        None => Seq::empty(),
    }
}

/// The directive of a prologue: the leading string-literal statements are
/// read in order, and the first `"ngInject"` (true) or `"ngNoInject"`
/// (false) decides; the prologue ends at the first other statement.
pub open spec fn spec_prologue(stmts: Seq<BodyStmt>) -> Option<bool>
    decreases stmts.len(),
{
    if stmts.len() == 0 {
        None
    } else {
        match stmts[0] {
            BodyStmt::Str(v) => if directive_text(v) == "ngInject"@ {
                Some(true)
            } else if directive_text(v) == "ngNoInject"@ {
                Some(false)
            } else {
                spec_prologue(stmts.drop_first())
            },
            BodyStmt::Other => None,
        }
    }
}

/// The directive of a function's body, if it has one.
pub open spec fn spec_function_directive(f: Function) -> Option<bool> {
    match f.body {
        Some(b) => spec_prologue(b@),
        None => None,
    }
}

/// The directive of an arrow function with a block body.
pub open spec fn spec_arrow_directive(a: ArrowExpr) -> Option<bool> {
    match a.body {
        ArrowBody::Block(b) => spec_prologue(b@),
        ArrowBody::Expr(_) => None,
    }
}

/// The request that an optional directive makes.
pub open spec fn spec_from_opt(opt: Option<bool>) -> NgInjectResult {
    match opt {
        Some(true) => NgInjectResult::Inject,
        Some(false) => NgInjectResult::NoInject,
        None => NgInjectResult::NoDirective,
    }
}

/// The request made by comments: the first comment that mentions
/// `@ngNoInject` or `@ngInject` decides, `@ngNoInject` first.
pub open spec fn spec_comments_result(texts: Seq<String>) -> NgInjectResult
    decreases texts.len(),
{
    if texts.len() == 0 {
        NgInjectResult::NoDirective
    } else if seq_contains(texts[0]@, "@ngNoInject"@) {
        NgInjectResult::NoInject
    } else if seq_contains(texts[0]@, "@ngInject"@) {
        NgInjectResult::Inject
    } else {
        spec_comments_result(texts.drop_first())
    }
}

/// `ngInject(expr)` (false) or `ngNoInject(expr)` (true) with its argument.
pub open spec fn spec_ng_call(call: CallExpr) -> Option<(bool, Expr)> {
    match call.callee {
        Callee::Expr(e) => match *e {
            Expr::Ident(id) => if (id.name@ == "ngInject"@ || id.name@ == "ngNoInject"@) && call.args@.len() == 1 {
                Some((id.name@ == "ngNoInject"@, call.args@[0]))
            } else {
                None
            },
            _ => None,
        },
        Callee::Other => None,
    }
}

/// The directive of a function body's prologue.
pub fn inspect_fn_body_for_ng_directive(body: &Vec<BodyStmt>) -> (r: Option<bool>)
    ensures
        r == spec_prologue(body@),
{
    let mut i: usize = 0;
    assert(body@.skip(0) =~= body@);
    while i < body.len()
        invariant
            i <= body@.len(),
            spec_prologue(body@) == spec_prologue(body@.skip(i as int)),
        decreases body@.len() - i,
    {
        assert(body@.skip(i as int).drop_first() =~= body@.skip(i + 1));
        assert(body@.skip(i as int)[0] == body@[i as int]);
        match &body[i] {
            BodyStmt::Str(v) => {
                let val: &str = match v {
                    Some(t) => t.as_str(),
                    None => "",
                };
                proof {
                    reveal_strlit("");
                    assert(val@ == directive_text(*v));
                }
                if str_eq(val, "ngInject") {
                    return Some(true);
                }
                if str_eq(val, "ngNoInject") {
                    return Some(false);
                }
            },
            BodyStmt::Other => {
                return None;
            },
        }
        i = i + 1;
    }
    None
}

/// The directive of a function.
pub fn inspect_function_for_ng_directive(function: &Function) -> (r: Option<bool>)
    ensures
        r == spec_function_directive(*function),
{
    match &function.body {
        Some(b) => inspect_fn_body_for_ng_directive(b),
        None => None,
    }
}

/// The directive of an arrow function; only block bodies have one.
pub fn inspect_arrow_for_ng_directive(arrow: &ArrowExpr) -> (r: Option<bool>)
    ensures
        r == spec_arrow_directive(*arrow),
{
    match &arrow.body {
        ArrowBody::Block(b) => inspect_fn_body_for_ng_directive(b),
        ArrowBody::Expr(_) => None,
    }
}

/// Detects `ngInject(expr)` and `ngNoInject(expr)`; the flag is true for
/// `ngNoInject`.
pub fn inspect_call_for_ng_call(call: &CallExpr) -> (r: Option<(bool, &Expr)>)
    ensures
        match r {
            Some((b, e)) => spec_ng_call(*call) == Some((b, *e)),
            None => spec_ng_call(*call) is None,
        },
{
    if let Callee::Expr(callee_expr) = &call.callee {
        if let Expr::Ident(id) = &**callee_expr {
            let name: &str = id.name.as_str();
            if (str_eq(name, "ngInject") || str_eq(name, "ngNoInject")) && call.args.len() == 1 {
                let block = str_eq(name, "ngNoInject");
                return Some((block, &call.args[0]));
            }
        }
    }
    None
}

impl NgInjectResult {
    /// The request that an optional directive makes.
    pub fn from_opt(opt: Option<bool>) -> (r: NgInjectResult)
        ensures
            r == spec_from_opt(opt),
    {
        match opt {
            Some(true) => NgInjectResult::Inject,
            Some(false) => NgInjectResult::NoInject,
            None => NgInjectResult::NoDirective,
        }
    }
}

/// The request of a function declaration's prologue.
pub fn check_fn_decl_for_ng_directive(fn_decl: &FnDecl) -> (r: NgInjectResult)
    ensures
        r == spec_from_opt(spec_function_directive(fn_decl.function)),
{
    NgInjectResult::from_opt(inspect_function_for_ng_directive(&fn_decl.function))
}

/// The request of the prologue of a variable's initial function or arrow
/// function.
pub open spec fn spec_var_declarator_directive(decl: VarDeclarator) -> NgInjectResult {
    match decl.init {
        Some(init) => spec_from_opt(match *init {
            Expr::Fn(f) => spec_function_directive(f.function),
            Expr::Arrow(a) => spec_arrow_directive(a),
            _ => None,
        }),
        None => NgInjectResult::NoDirective,
    }
}

/// The request of the prologue of a variable's initial function.
pub fn check_var_declarator_for_ng_directive(decl: &VarDeclarator) -> (r: NgInjectResult)
    ensures
        r == spec_var_declarator_directive(*decl),
{
    match &decl.init {
        Some(init) => {
            let opt = match &**init {
                Expr::Fn(f) => inspect_function_for_ng_directive(&f.function),
                Expr::Arrow(a) => inspect_arrow_for_ng_directive(a),
                _ => None,
            };
            NgInjectResult::from_opt(opt)
        },
        None => NgInjectResult::NoDirective,
    }
}

/// The request of a function expression's prologue.
pub fn check_fn_expr_for_ng_directive(fn_expr: &FnExpr) -> (r: NgInjectResult)
    ensures
        r == spec_from_opt(spec_function_directive(fn_expr.function)),
{
    NgInjectResult::from_opt(inspect_function_for_ng_directive(&fn_expr.function))
}

/// The request of an arrow function's prologue.
pub fn check_arrow_for_ng_directive(arrow: &ArrowExpr) -> (r: NgInjectResult)
    ensures
        r == spec_from_opt(spec_arrow_directive(*arrow)),
{
    NgInjectResult::from_opt(inspect_arrow_for_ng_directive(arrow))
}

/// The request made by the comments that lead a position.
pub fn check_ng_inject_comment_at(comments: &Vec<String>) -> (r: NgInjectResult)
    ensures
        r == spec_comments_result(comments@),
{
    let mut i: usize = 0;
    assert(comments@.skip(0) =~= comments@);
    while i < comments.len()
        invariant
            i <= comments@.len(),
            spec_comments_result(comments@) == spec_comments_result(comments@.skip(i as int)),
        decreases comments@.len() - i,
    {
        assert(comments@.skip(i as int).drop_first() =~= comments@.skip(i + 1));
        assert(comments@.skip(i as int)[0] == comments@[i as int]);
        let text: &str = comments[i].as_str();
        if str_contains(text, "@ngNoInject") {
            return NgInjectResult::NoInject;
        }
        if str_contains(text, "@ngInject") {
            return NgInjectResult::Inject;
        }
        i = i + 1;
    }
    NgInjectResult::NoDirective
}

} // verus!
